//! Extraction of the traffic statistics that the router embeds in its
//! overview page as a JavaScript object literal.
use vstd::prelude::*;

use crate::error::TrafficError;
use crate::json::{parse_json, parsed_str_members, str_member};
use crate::text::{chars_of, find_chars, find_from, occurs_at, parse_i64, parse_i64_chars, parse_u64,
    parse_u64_chars};

verus! {

broadcast use vstd::string::group_string_axioms;

/// The text that introduces the statistics object; its last character is the
/// object's opening brace.
pub const MARKER: &'static str = "WanStatistics = {";

/// One reading of the router's traffic counters.
#[derive(Debug, Clone, Copy, PartialEq, Eq, Structural)]
pub struct TrafficReading {
    /// Bytes sent since the counters were last cleared.
    pub up_volume: i64,
    /// Bytes received since the counters were last cleared.
    pub down_volume: i64,
    /// Seconds since the counters were last cleared.
    pub live_time: u64,
}

impl TrafficReading {
    /// Up and down volume together, where the sum fits in 64 bits.
    pub fn total_traffic(&self) -> (r: Option<i64>)
        ensures
            r == (if i64::MIN <= self.up_volume + self.down_volume <= i64::MAX {
                Some((self.up_volume + self.down_volume) as i64)
            } else {
                None
            }),
    {
        self.up_volume.checked_add(self.down_volume)
    }
}

/// The statistics object of a page: from the brace that ends the first
/// marker up to the first closing brace after it, both included.
pub open spec fn statistics_fragment(body: Seq<char>) -> Result<Seq<char>, TrafficError> {
    match find_from(body, MARKER@, 0) {
        None => Err(TrafficError::NoWanStatistics),
        Some(i) => {
            let open = i + MARKER@.len() - 1;
            match find_from(body, seq!['}'], open) {
                None => Err(TrafficError::NoClosingBrace),
                Some(j) => Ok(body.subrange(open, j + 1)),
            }
        },
    }
}

/// Each single quote of `s` turned into a double quote. The router never puts
/// quotes inside its values nor escapes any, so on its output this turns the
/// object literal into JSON; it is no general translation.
pub open spec fn normalized(s: Seq<char>) -> Seq<char> {
    s.map_values(|c: char| if c == '\'' { '"' } else { c })
}

/// The reading that three member texts give, each of them a number.
pub open spec fn reading_of(
    up: Option<Seq<char>>,
    down: Option<Seq<char>>,
    live: Option<Seq<char>>,
) -> Result<TrafficReading, TrafficError> {
    if up is Some && down is Some && live is Some && parse_i64(up->0) is Some && parse_i64(
        down->0,
    ) is Some && parse_u64(live->0) is Some {
        Ok(
            TrafficReading {
                up_volume: parse_i64(up->0)->0,
                down_volume: parse_i64(down->0)->0,
                live_time: parse_u64(live->0)->0,
            },
        )
    } else {
        Err(TrafficError::InvalidWanStatistics)
    }
}

/// The member `key` of a map, if it has one.
pub open spec fn member(m: Map<Seq<char>, Seq<char>>, key: Seq<char>) -> Option<Seq<char>> {
    if m.contains_key(key) {
        Some(m[key])
    } else {
        None
    }
}

/// The reading that an overview page gives.
pub open spec fn overview_of(body: Seq<char>) -> Result<TrafficReading, TrafficError> {
    match statistics_fragment(body) {
        Err(e) => Err(e),
        Ok(fragment) => match parsed_str_members(normalized(fragment)) {
            None => Err(TrafficError::InvalidWanStatistics),
            Some(m) => reading_of(
                member(m, "upvolume"@),
                member(m, "downvolume"@),
                member(m, "liveTime"@),
            ),
        },
    }
}

/// The text of an optional string.
pub open spec fn view_of(s: Option<&str>) -> Option<Seq<char>> {
    match s {
        Some(t) => Some(t@),
        None => None,
    }
}

/// Turns every single quote of `text` into a double quote.
pub fn normalize_quotes(text: &str) -> (r: String)
    ensures
        r@ == normalized(text@),
{
    let cs = chars_of(text);
    let n: usize = cs.len();
    let mut out = String::new();
    let mut run: usize = 0;
    let mut i: usize = 0;
    while i < n
        invariant
            n == cs@.len(),
            cs@ == text@,
            run <= i <= n,
            out@ + cs@.subrange(run as int, i as int) == normalized(cs@.subrange(0, i as int)),
            forall|k: int| run <= k < i ==> cs@[k] != '\'',
        decreases n - i,
    {
        let ghost before = cs@.subrange(0, i as int);
        assert(cs@.subrange(0, i + 1) =~= before.push(cs@[i as int]));
        assert(normalized(before.push(cs@[i as int])) =~= normalized(before).push(
            if cs@[i as int] == '\'' { '"' } else { cs@[i as int] },
        ));
        if cs[i] == '\'' {
            let piece = text.substring_char(run, i);
            out.append(piece);
            let quote = "\"";
            proof {
                reveal_strlit("\"");
            }
            assert(quote@ =~= seq!['"']);
            out.append(quote);
            assert(out@ =~= normalized(before).push('"'));
            run = i + 1;
            assert(cs@.subrange(run as int, i + 1) =~= Seq::<char>::empty());
            assert(out@ + cs@.subrange(run as int, i + 1) =~= normalized(cs@.subrange(0, i + 1)));
        } else {
            assert(cs@.subrange(run as int, i + 1) =~= cs@.subrange(run as int, i as int).push(
                cs@[i as int],
            ));
            assert(out@ + cs@.subrange(run as int, i + 1) =~= normalized(cs@.subrange(0, i + 1)));
        }
        i += 1;
    }
    let rest = text.substring_char(run, n);
    out.append(rest);
    assert(cs@.subrange(0, n as int) =~= text@);
    assert(out@ =~= normalized(text@));
    out
}

/// The reading that the three member texts give; any of them missing or not a
/// number of its type is `InvalidWanStatistics`.
pub fn reading_from_members(up: Option<&str>, down: Option<&str>, live: Option<&str>) -> (r:
    Result<TrafficReading, TrafficError>)
    ensures
        r == reading_of(view_of(up), view_of(down), view_of(live)),
{
    let (up, down, live) = match (up, down, live) {
        (Some(u), Some(d), Some(l)) => (u, d, l),
        _ => {
            return Err(TrafficError::InvalidWanStatistics);
        },
    };
    let up_volume = match parse_i64_chars(&chars_of(up)) {
        Some(x) => x,
        None => {
            return Err(TrafficError::InvalidWanStatistics);
        },
    };
    let down_volume = match parse_i64_chars(&chars_of(down)) {
        Some(x) => x,
        None => {
            return Err(TrafficError::InvalidWanStatistics);
        },
    };
    let live_time = match parse_u64_chars(&chars_of(live)) {
        Some(x) => x,
        None => {
            return Err(TrafficError::InvalidWanStatistics);
        },
    };
    Ok(TrafficReading { up_volume, down_volume, live_time })
}

/// Finds the statistics object in an overview page and reads it.
pub fn extract_overview(body: &str) -> (r: Result<TrafficReading, TrafficError>)
    ensures
        r == overview_of(body@),
{
    let b = chars_of(body);
    let n: usize = b.len();
    let marker = chars_of(MARKER);
    proof {
        reveal_strlit("WanStatistics = {");
    }
    let i = match find_chars(&b, &marker, 0) {
        Some(i) => i,
        None => {
            return Err(TrafficError::NoWanStatistics);
        },
    };
    assert(marker@.len() == 17);
    assert(occurs_at(b@, marker@, i as int));
    let open = i + marker.len() - 1;
    let close_brace: Vec<char> = vec!['}'];
    assert(close_brace@ =~= seq!['}']);
    let j = match find_chars(&b, &close_brace, open) {
        Some(j) => j,
        None => {
            return Err(TrafficError::NoClosingBrace);
        },
    };
    let fragment = body.substring_char(open, j + 1);
    let text = normalize_quotes(fragment);
    match parse_json(&text) {
        Err(_) => Err(TrafficError::InvalidWanStatistics),
        Ok(doc) => reading_from_members(
            str_member(&doc, "upvolume"),
            str_member(&doc, "downvolume"),
            str_member(&doc, "liveTime"),
        ),
    }
}

/// The total traffic that an overview page reports: up and down volume
/// together, which must fit in 64 bits.
pub open spec fn overview_total_of(body: Seq<char>) -> Result<i64, TrafficError> {
    match overview_of(body) {
        Err(e) => Err(e),
        Ok(r) => if i64::MIN <= r.up_volume + r.down_volume <= i64::MAX {
            Ok((r.up_volume + r.down_volume) as i64)
        } else {
            Err(TrafficError::InvalidWanStatistics)
        },
    }
}

/// Reads the total traffic from an overview page.
pub fn overview_total(body: &str) -> (r: Result<i64, TrafficError>)
    ensures
        r == overview_total_of(body@),
{
    let reading = extract_overview(body)?;
    match reading.total_traffic() {
        Some(total) => Ok(total),
        None => Err(TrafficError::InvalidWanStatistics),
    }
}

/// Turning quotes is idempotent, and leaves text without single quotes as it
/// is.
pub proof fn lemma_normalize_idempotent(s: Seq<char>)
    ensures
        normalized(normalized(s)) == normalized(s),
        !s.contains('\'') ==> normalized(s) == s,
{
    assert(normalized(normalized(s)) =~= normalized(s));
    if !s.contains('\'') {
        assert forall|i: int| 0 <= i < s.len() implies s[i] != '\'' by {
            if s[i] == '\'' {
                assert(s.contains('\''));
            }
        }
        assert(normalized(s) =~= s);
    }
}

} // verus!
