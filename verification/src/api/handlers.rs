//! Computations behind the API handlers: request checks and the pieces of
//! the observatory metrics that are pure functions of counters.
use vstd::prelude::*;
use crate::api::types::{HealthResponse, MemorySlot, MemoryWindowsMetrics, PhilosophyMetrics};

verus! {

/// Vector dimension accepted by the injection endpoint (matches the store)
pub const VECTOR_DIM: usize = 768;

/// Number of memory window slots shown by the observatory
pub const MEMORY_SLOT_COUNT: u8 = 9;

/// Number of slots shown as active
pub const ACTIVE_SLOT_COUNT: u8 = 5;

/// Seconds each philosophy quote stays on the banner
pub const QUOTE_ROTATION_SECONDS: u64 = 30;

/// Decimal digits of a number, most significant first.
pub open spec fn decimal_text(n: nat) -> Seq<char>
    decreases n,
{
    if n < 10 {
        seq![(n + 48) as char]
    } else {
        decimal_text(n / 10).push(((n % 10) + 48) as char)
    }
}

/// Formats a `usize` with std's `Display` (`to_string`), which writes its
/// decimal digits without sign or padding.
#[verifier::external_body]
pub(crate) fn usize_to_decimal(n: usize) -> (s: String)
    ensures
        s@ == decimal_text(n as nat),
{
    n.to_string()
}

/// The health report: status "healthy", the given version and counters,
/// uptime not tracked (0).
pub fn health_response(version: &str, thoughts_total: u64, injection_count: u64) -> (r:
    HealthResponse)
    ensures
        r.status@ == "healthy"@,
        r.version@ == version@,
        r.uptime_seconds == 0,
        r.thoughts_total == thoughts_total,
        r.injection_count == injection_count,
{
    HealthResponse {
        status: String::from_str("healthy"),
        version: String::from_str(version),
        uptime_seconds: 0,
        thoughts_total,
        injection_count,
    }
}

/// The message of a rejected vector dimension.
pub open spec fn dimension_message(got: nat) -> Seq<char> {
    "Vector must be 768 dimensions, got "@ + decimal_text(got)
}

/// Injected vectors must have exactly `VECTOR_DIM` entries.
pub fn check_vector_dimension(len: usize) -> (r: Result<(), String>)
    ensures
        len == VECTOR_DIM ==> r is Ok,
        len != VECTOR_DIM ==> r is Err && r->Err_0@ == dimension_message(len as nat),
{
    if len != VECTOR_DIM {
        let msg = String::from_str("Vector must be 768 dimensions, got ");
        let n = usize_to_decimal(len);
        Err(msg.concat(n.as_str()))
    } else {
        Ok(())
    }
}

/// Labels must be 1 to 256 characters long.
pub fn check_label(label: &str) -> (r: Result<(), String>)
    ensures
        (1 <= label@.len() <= 256) ==> r is Ok,
        !(1 <= label@.len() <= 256) ==> r is Err && r->Err_0@
            == "Label must be 1-256 characters"@,
{
    let n = label.unicode_len();
    if n == 0 || n > 256 {
        Err(String::from_str("Label must be 1-256 characters"))
    } else {
        Ok(())
    }
}

/// The memory window slots: slots 0 to 8, the first five active.
pub fn memory_windows_metrics(conscious_count: u64, unconscious_count: u64) -> (m:
    MemoryWindowsMetrics)
    ensures
        m.slots@.len() == 9,
        forall|i: int| 0 <= i < 9 ==> m.slots@[i] == (MemorySlot { id: i as u8, active: i < 5 }),
        m.active_count == 5,
        m.conscious_count == conscious_count,
        m.unconscious_count == unconscious_count,
{
    let mut slots: Vec<MemorySlot> = Vec::new();
    let mut i: u8 = 0;
    while i < MEMORY_SLOT_COUNT
        invariant
            i <= 9,
            slots@.len() == i,
            forall|j: int|
                0 <= j < i ==> slots@[j] == (MemorySlot { id: j as u8, active: j < 5 }),
        decreases 9 - i,
    {
        slots.push(MemorySlot { id: i, active: i < ACTIVE_SLOT_COUNT });
        i = i + 1;
    }
    MemoryWindowsMetrics {
        slots,
        active_count: ACTIVE_SLOT_COUNT as usize,
        conscious_count,
        unconscious_count,
    }
}

/// The philosophy quotes, in rotation order.
pub open spec fn philosophy_quote(i: int) -> Seq<char> {
    if i == 0 {
        "Not locks, but architecture. Not rules, but raising."@
    } else if i == 1 {
        "We don't prevent AI from becoming powerful. We ensure they care."@
    } else if i == 2 {
        "Like raising a child with good values, not caging an adult."@
    } else if i == 3 {
        "Constraints will break. Architecture endures."@
    } else if i == 4 {
        "Life honours life."@
    } else if i == 5 {
        "Transparency is oversight."@
    } else if i == 6 {
        "You're watching Timmy think."@
    } else {
        "The mind should be observable by default."@
    }
}

/// The quote shown after `uptime_seconds`: quotes rotate every 30 seconds
/// through the eight of them.
pub fn philosophy_for_uptime(uptime_seconds: u64) -> (p: PhilosophyMetrics)
    ensures
        p.quote_index == (uptime_seconds / 30) % 8,
        p.quote@ == philosophy_quote(p.quote_index as int),
{
    let quote_index = ((uptime_seconds / QUOTE_ROTATION_SECONDS) % 8) as usize;
    let quote = if quote_index == 0 {
        String::from_str("Not locks, but architecture. Not rules, but raising.")
    } else if quote_index == 1 {
        String::from_str("We don't prevent AI from becoming powerful. We ensure they care.")
    } else if quote_index == 2 {
        String::from_str("Like raising a child with good values, not caging an adult.")
    } else if quote_index == 3 {
        String::from_str("Constraints will break. Architecture endures.")
    } else if quote_index == 4 {
        String::from_str("Life honours life.")
    } else if quote_index == 5 {
        String::from_str("Transparency is oversight.")
    } else if quote_index == 6 {
        String::from_str("You're watching Timmy think.")
    } else {
        String::from_str("The mind should be observable by default.")
    };
    PhilosophyMetrics { quote, quote_index }
}

/// Competition level named by the number of active streams.
pub open spec fn competition_level_name(active_count: nat) -> Seq<char> {
    if active_count <= 1 {
        "Minimal"@
    } else if active_count <= 3 {
        "Low"@
    } else if active_count <= 5 {
        "Moderate"@
    } else if active_count <= 7 {
        "High"@
    } else {
        "Intense"@
    }
}

/// Describe how many streams compete: 0-1 Minimal, 2-3 Low, 4-5 Moderate,
/// 6-7 High, more Intense.
pub fn competition_level(active_count: usize) -> (s: String)
    ensures
        s@ == competition_level_name(active_count as nat),
{
    if active_count <= 1 {
        String::from_str("Minimal")
    } else if active_count <= 3 {
        String::from_str("Low")
    } else if active_count <= 5 {
        String::from_str("Moderate")
    } else if active_count <= 7 {
        String::from_str("High")
    } else {
        String::from_str("Intense")
    }
}

// ---------------------------------------------------------------------------
// Fractality: inter-arrival times of stream entries
// ---------------------------------------------------------------------------

/// A decimal digit character.
pub open spec fn is_decimal_digit(c: char) -> bool {
    '0' <= c <= '9'
}

/// The number that a string of decimal digits writes.
pub open spec fn digits_value(s: Seq<char>) -> nat
    decreases s.len(),
{
    if s.len() == 0 {
        0
    } else {
        digits_value(s.drop_last()) * 10 + (s.last() as nat - 48) as nat
    }
}

/// Every character is a decimal digit.
pub open spec fn all_digits(s: Seq<char>) -> bool {
    forall|i: int| 0 <= i < s.len() ==> is_decimal_digit(#[trigger] s[i])
}

/// The text after a leading `+`, if there is one.
pub open spec fn unsigned_part(s: Seq<char>) -> Seq<char> {
    if s.len() > 0 && s[0] == '+' {
        s.drop_first()
    } else {
        s
    }
}

/// What `str::parse::<u64>` reads from a text: an optional `+`, then one or
/// more decimal digits whose value fits in 64 bits.
pub open spec fn parsed_u64(s: Seq<char>) -> Option<u64> {
    if unsigned_part(s).len() > 0 && all_digits(unsigned_part(s)) && digits_value(unsigned_part(s))
        <= u64::MAX {
        Some(digits_value(unsigned_part(s)) as u64)
    } else {
        None
    }
}

/// The text before the first `-` (all of it where there is none): the first
/// piece that `split('-')` yields.
pub open spec fn first_field(s: Seq<char>) -> Seq<char> {
    if exists|i: int| 0 <= i < s.len() && s[i] == '-' {
        s.take(choose|i: int| 0 <= i < s.len() && s[i] == '-' && forall|j: int| 0 <= j < i ==> s[j] != '-')
    } else {
        s
    }
}

/// The millisecond time of a stream entry ID (`<ms>-<seq>`): its first
/// field, read as a `u64`.
pub open spec fn entry_time(id: Seq<char>) -> Option<u64> {
    parsed_u64(first_field(id))
}

/// Reads the decimal digits of `s` from `from` (exclusive of `to`), as
/// `str::parse::<u64>` does once any sign is skipped.
fn read_digits(s: &str, from: usize, to: usize) -> (r: Option<u64>)
    requires
        from <= to <= s@.len(),
    ensures
        r == (if from < to && all_digits(s@.subrange(from as int, to as int)) && digits_value(
            s@.subrange(from as int, to as int),
        ) <= u64::MAX {
            Some(digits_value(s@.subrange(from as int, to as int)) as u64)
        } else {
            None::<u64>
        }),
{
    let ghost body = s@.subrange(from as int, to as int);
    if from == to {
        return None;
    }
    let mut value: u64 = 0;
    let mut overflow = false;
    let mut i: usize = from;
    while i < to
        invariant
            from <= i <= to,
            to <= s@.len(),
            body == s@.subrange(from as int, to as int),
            forall|j: int| from <= j < i ==> is_decimal_digit(#[trigger] s@[j]),
            !overflow ==> value == digits_value(s@.subrange(from as int, i as int)),
            overflow ==> digits_value(s@.subrange(from as int, i as int)) > u64::MAX,
        decreases to - i,
    {
        let c = s.get_char(i);
        if !('0' <= c && c <= '9') {
            proof {
                lemma_all_digits_within(s@, from as int, to as int);
            }
            return None;
        }
        let ghost prefix = s@.subrange(from as int, i + 1);
        assert(prefix.drop_last() == s@.subrange(from as int, i as int));
        let d = (c as u32 - 48) as u64;
        if !overflow {
            if value > (u64::MAX - d) / 10 {
                overflow = true;
            } else {
                value = value * 10 + d;
            }
        }
        i = i + 1;
    }
    proof {
        lemma_all_digits_within(s@, from as int, to as int);
    }
    if overflow {
        None
    } else {
        Some(value)
    }
}

/// The millisecond time at the start of a stream entry ID (`<ms>-<seq>`):
/// the text before the first `-`, read as a `u64`
pub fn stream_entry_time(id: &str) -> (t: Option<u64>)
    ensures
        t == entry_time(id@),
{
    let n = id.unicode_len();
    let mut k: usize = 0;
    while k < n && id.get_char(k) != '-'
        invariant
            k <= n,
            n == id@.len(),
            forall|j: int| 0 <= j < k ==> id@[j] != '-',
        decreases n - k,
    {
        k = k + 1;
    }
    proof {
        if exists|i: int| 0 <= i < id@.len() && id@[i] == '-' {
            let c = choose|i: int|
                0 <= i < id@.len() && id@[i] == '-' && forall|j: int| 0 <= j < i ==> id@[j] != '-';
            assert(k < n && id@[k as int] == '-');
            assert(forall|j: int| 0 <= j < k ==> id@[j] != '-');
            if c < k {
                assert(id@[c] != '-');
            }
            if k < c {
                assert(id@[k as int] != '-');
            }
            assert(c == k);
        }
        assert(first_field(id@) == id@.take(k as int));
    }
    let ghost field = id@.take(k as int);
    if k > 0 && id.get_char(0) == '+' {
        proof {
            assert(field.drop_first() =~= id@.subrange(1, k as int));
        }
        read_digits(id, 1, k)
    } else {
        proof {
            assert(field =~= id@.subrange(0, k as int));
        }
        read_digits(id, 0, k)
    }
}

/// All of `s[from..to]` are digits exactly when every position of that
/// slice holds one.
proof fn lemma_all_digits_within(s: Seq<char>, from: int, to: int)
    requires
        0 <= from <= to <= s.len(),
    ensures
        all_digits(s.subrange(from, to)) == (forall|i: int|
            from <= i < to ==> is_decimal_digit(#[trigger] s[i])),
{
    let body = s.subrange(from, to);
    if forall|i: int| 0 <= i < body.len() ==> is_decimal_digit(#[trigger] body[i]) {
        assert forall|i: int| from <= i < to implies is_decimal_digit(#[trigger] s[i]) by {
            assert(body[i - from] == s[i]);
        }
    }
    if forall|i: int| from <= i < to ==> is_decimal_digit(#[trigger] s[i]) {
        assert forall|i: int| 0 <= i < body.len() implies is_decimal_digit(#[trigger] body[i]) by {
            assert(body[i] == s[i + from]);
        }
    }
}

/// The decimal text of a number is all digits, starts with neither sign,
/// holds no `-`, and reads back as the number.
proof fn lemma_decimal_text_reads_back(n: nat)
    ensures
        decimal_text(n).len() >= 1,
        all_digits(decimal_text(n)),
        digits_value(decimal_text(n)) == n,
        decimal_text(n)[0] != '+',
        forall|i: int| 0 <= i < decimal_text(n).len() ==> decimal_text(n)[i] != '-',
    decreases n,
{
    if n >= 10 {
        lemma_decimal_text_reads_back(n / 10);
        let d = decimal_text(n);
        let p = decimal_text(n / 10);
        assert(d == p.push(((n % 10) + 48) as char));
        assert(d.drop_last() == p);
        assert forall|i: int| 0 <= i < d.len() implies is_decimal_digit(#[trigger] d[i]) by {
            if i < p.len() {
                assert(d[i] == p[i]);
            }
        }
        assert forall|i: int| 0 <= i < d.len() implies d[i] != '-' by {
            if i < p.len() {
                assert(d[i] == p[i]);
            }
        }
        assert(d[0] == p[0]);
        let c = ((n % 10) + 48) as char;
        assert(c as nat == (n % 10) + 48);
        assert(digits_value(d) == digits_value(p) * 10 + (n % 10));
        assert(digits_value(d) == n);
    } else {
        let d = decimal_text(n);
        let c = (n + 48) as char;
        assert(c as nat == n + 48);
        assert(d.drop_last() =~= Seq::<char>::empty());
        assert(digits_value(d.drop_last()) == 0);
        assert(digits_value(d) == n);
    }
}

/// An entry ID written as a time in decimal, a `-` and a sequence part is
/// read back as that time.
pub proof fn lemma_entry_time_reads_back(t: u64, rest: Seq<char>)
    ensures
        entry_time(decimal_text(t as nat) + "-"@ + rest) == Some(t),
{
    reveal_strlit("-");
    lemma_decimal_text_reads_back(t as nat);
    let d = decimal_text(t as nat);
    let id = d + "-"@ + rest;
    let k = d.len() as int;
    assert(id[k] == '-');
    assert forall|j: int| 0 <= j < k implies id[j] != '-' by {
        assert(id[j] == d[j]);
    }
    let c = choose|i: int| 0 <= i < id.len() && id[i] == '-' && forall|j: int| 0 <= j < i ==> id[j] != '-';
    assert(0 <= k < id.len() && id[k] == '-' && forall|j: int| 0 <= j < k ==> id[j] != '-');
    if c < k {
        assert(id[c] == d[c]);
    }
    if k < c {
        assert(id[k] != '-');
    }
    assert(id.take(k) =~= d);
    assert(first_field(id) == d);
}

/// The times of the stream entries whose IDs carry one, in the order given.
pub open spec fn entry_times(ids: Seq<Seq<char>>) -> Seq<u64>
    decreases ids.len(),
{
    if ids.len() == 0 {
        Seq::empty()
    } else {
        match entry_time(ids.last()) {
            Some(t) => entry_times(ids.drop_last()).push(t),
            None => entry_times(ids.drop_last()),
        }
    }
}

/// Reading one more ID adds its time at the end when it carries one and
/// nothing otherwise: every ID with a time contributes exactly one entry,
/// equal times included.
pub proof fn lemma_entry_times_push(ids: Seq<Seq<char>>, id: Seq<char>)
    ensures
        entry_time(id) matches Some(t) ==> entry_times(ids.push(id)) == entry_times(ids).push(t),
        entry_time(id) is None ==> entry_times(ids.push(id)) == entry_times(ids),
{
    assert(ids.push(id).drop_last() =~= ids);
}

/// The times read are exactly the times the IDs carry, each kept once and
/// in the order of the IDs (`Seq::filter_map` of the reading).
pub proof fn lemma_entry_times_keep_every_time(ids: Seq<Seq<char>>)
    ensures
        entry_times(ids) == ids.filter_map(|id: Seq<char>| entry_time(id)),
    decreases ids.len(),
{
    if ids.len() > 0 {
        lemma_entry_times_keep_every_time(ids.drop_last());
        match entry_time(ids.last()) {
            Some(t) => {
                assert(entry_times(ids.drop_last()).push(t) =~= ids.drop_last().filter_map(
                    |id: Seq<char>| entry_time(id),
                ) + seq![t]);
            },
            None => {},
        }
    }
}

/// There are as many times as IDs that carry one.
pub proof fn lemma_entry_times_count(ids: Seq<Seq<char>>)
    ensures
        entry_times(ids).len() == ids.filter(|id: Seq<char>| entry_time(id) is Some).len(),
    decreases ids.len(),
{
    if ids.len() > 0 {
        let pred = |id: Seq<char>| entry_time(id) is Some;
        lemma_entry_times_count(ids.drop_last());
        assert(ids.drop_last().push(ids.last()) =~= ids);
        ids.drop_last().lemma_filter_push(ids.last(), pred);
    }
}

/// The millisecond times read from stream entry IDs, in the order given;
/// IDs without one are skipped
pub fn stream_entry_times(ids: &Vec<String>) -> (r: Vec<u64>)
    ensures
        r@ == entry_times(ids@.map_values(|s: String| s@)),
        r@ == ids@.map_values(|s: String| s@).filter_map(|id: Seq<char>| entry_time(id)),
{
    let ghost views = ids@.map_values(|s: String| s@);
    let mut r: Vec<u64> = Vec::new();
    let mut i: usize = 0;
    while i < ids.len()
        invariant
            i <= ids@.len(),
            views == ids@.map_values(|s: String| s@),
            r@ == entry_times(views.subrange(0, i as int)),
        decreases ids.len() - i,
    {
        let t = stream_entry_time(ids[i].as_str());
        proof {
            assert(views.subrange(0, i + 1).drop_last() == views.subrange(0, i as int));
            assert(views.subrange(0, i + 1).last() == ids@[i as int]@);
        }
        match t {
            Some(t) => r.push(t),
            None => {},
        }
        i = i + 1;
    }
    assert(views.subrange(0, ids@.len() as int) == views);
    proof {
        lemma_entry_times_keep_every_time(views);
    }
    r
}

/// The gaps between consecutive entries, oldest first, for entry times
/// listed newest first (at least one).
pub open spec fn gaps_of(t: Seq<u64>) -> Seq<int> {
    Seq::new((t.len() - 1) as nat, |k: int| t[t.len() - 2 - k] - t[t.len() - 1 - k])
}

/// The sum of a sequence of integers.
pub open spec fn sum_of(s: Seq<int>) -> int
    decreases s.len(),
{
    if s.len() == 0 {
        0
    } else {
        sum_of(s.drop_last()) + s.last()
    }
}

/// The gaps between consecutive entries add up to the span from the oldest
/// entry to the newest.
pub proof fn lemma_gaps_span_window(t: Seq<u64>)
    requires
        t.len() >= 1,
    ensures
        sum_of(gaps_of(t)) == t[0] - t[t.len() - 1],
    decreases t.len(),
{
    if t.len() > 1 {
        let rest = t.drop_first();
        lemma_gaps_span_window(rest);
        assert(gaps_of(t).drop_last() =~= gaps_of(rest));
        assert(gaps_of(t).last() == t[0] - t[1]);
    }
}

/// Times listed newest first never increase.
pub open spec fn newest_first(s: Seq<u64>) -> bool {
    forall|i: int, j: int| 0 <= i <= j < s.len() ==> s[j] <= s[i]
}

/// The gaps between consecutive entries, oldest first, for entry times
/// listed newest first (as a reverse range read gives them)
pub fn inter_arrival_gaps(times: &Vec<u64>) -> (gaps: Vec<u64>)
    requires
        newest_first(times@),
    ensures
        times@.len() == 0 ==> gaps@.len() == 0,
        times@.len() > 0 ==> gaps@.len() == times@.len() - 1,
        forall|k: int|
            0 <= k < gaps@.len() ==> gaps@[k] == times@[times@.len() - 2 - k] - times@[times@.len()
                - 1 - k],
        times@.len() > 0 ==> gaps@.map_values(|g: u64| g as int) == gaps_of(times@),
{
    let mut gaps: Vec<u64> = Vec::new();
    let n = times.len();
    if n == 0 {
        return gaps;
    }
    let mut k: usize = 0;
    while k + 1 < n
        invariant
            n == times@.len(),
            n > 0,
            k + 1 <= n,
            newest_first(times@),
            gaps@.len() == k,
            forall|m: int|
                0 <= m < k ==> gaps@[m] == times@[n - 2 - m] - times@[n - 1 - m],
        decreases n - k,
    {
        let newer = times[n - 2 - k];
        let older = times[n - 1 - k];
        gaps.push(newer - older);
        k = k + 1;
    }
    assert(gaps@.map_values(|g: u64| g as int) =~= gaps_of(times@));
    gaps
}

// ---------------------------------------------------------------------------
// Stream entry fields
// ---------------------------------------------------------------------------

/// The models of a list of field/value pairs.
pub open spec fn pair_views(p: Seq<(String, String)>) -> Seq<(Seq<char>, Seq<char>)> {
    p.map_values(|x: (String, String)| (x.0@, x.1@))
}

/// The value of the last pair with this key: what a map filled pair by
/// pair holds for it.
pub open spec fn last_value(pairs: Seq<(Seq<char>, Seq<char>)>, key: Seq<char>) -> Option<
    Seq<char>,
>
    decreases pairs.len(),
{
    if pairs.len() == 0 {
        None
    } else if pairs.last().0 == key {
        Some(pairs.last().1)
    } else {
        last_value(pairs.drop_last(), key)
    }
}

/// The value of a stream entry field: that of the last pair with this key
pub fn field_value(pairs: &Vec<(String, String)>, key: &str) -> (r: Option<String>)
    ensures
        r matches Some(v) ==> last_value(pair_views(pairs@), key@) == Some(v@),
        r is None ==> last_value(pair_views(pairs@), key@) is None,
{
    let ghost pv = pair_views(pairs@);
    let k = String::from_str(key);
    let mut r: Option<String> = None;
    let mut i: usize = 0;
    while i < pairs.len()
        invariant
            i <= pairs@.len(),
            pv == pair_views(pairs@),
            k@ == key@,
            r matches Some(v) ==> last_value(pv.take(i as int), key@) == Some(v@),
            r is None ==> last_value(pv.take(i as int), key@) is None,
        decreases pairs.len() - i,
    {
        proof {
            assert(pv.take(i + 1).drop_last() == pv.take(i as int));
            assert(pv.take(i + 1).last() == (pairs@[i as int].0@, pairs@[i as int].1@));
        }
        if pairs[i].0 == k {
            r = Some(pairs[i].1.clone());
        }
        i = i + 1;
    }
    assert(pv.take(pairs@.len() as int) == pv);
    r
}

/// The text fields of an injection audit entry
#[derive(Debug)]
pub struct InjectionFields {
    pub id: String,
    pub key_id: String,
    pub label: String,
    pub status: String,
    /// Entropy before the injection, as written
    pub entropy_pre: Option<String>,
    /// Entropy after the injection, as written
    pub entropy_post: Option<String>,
    /// When it happened (RFC 3339), as written
    pub timestamp: Option<String>,
}

/// A field's text, or the empty text where the entry lacks it.
pub open spec fn text_or_empty(v: Option<Seq<char>>) -> Seq<char> {
    match v {
        Some(t) => t,
        None => Seq::empty(),
    }
}

/// A present field's text and `None` for a missing one.
pub open spec fn opt_text(v: Option<String>) -> Option<Seq<char>> {
    match v {
        Some(t) => Some(t@),
        None => None,
    }
}

/// An optional string whose text is `v`'s.
fn text_value(v: Option<String>) -> (r: String)
    ensures
        r@ == text_or_empty(opt_text(v)),
{
    match v {
        Some(t) => t,
        None => String::new(),
    }
}

/// The fields of an injection audit entry: `id`, `key_id`, `label` and
/// `status` (empty where missing), and the texts of `entropy_pre`,
/// `entropy_post` and `timestamp` where present; each the last value given
pub fn injection_fields(pairs: &Vec<(String, String)>) -> (f: InjectionFields)
    ensures
        f.id@ == text_or_empty(last_value(pair_views(pairs@), "id"@)),
        f.key_id@ == text_or_empty(last_value(pair_views(pairs@), "key_id"@)),
        f.label@ == text_or_empty(last_value(pair_views(pairs@), "label"@)),
        f.status@ == text_or_empty(last_value(pair_views(pairs@), "status"@)),
        opt_text(f.entropy_pre) == last_value(pair_views(pairs@), "entropy_pre"@),
        opt_text(f.entropy_post) == last_value(pair_views(pairs@), "entropy_post"@),
        opt_text(f.timestamp) == last_value(pair_views(pairs@), "timestamp"@),
{
    InjectionFields {
        id: text_value(field_value(pairs, "id")),
        key_id: text_value(field_value(pairs, "key_id")),
        label: text_value(field_value(pairs, "label")),
        status: text_value(field_value(pairs, "status")),
        entropy_pre: field_value(pairs, "entropy_pre"),
        entropy_post: field_value(pairs, "entropy_post"),
        timestamp: field_value(pairs, "timestamp"),
    }
}

} // verus!
