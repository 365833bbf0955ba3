//! Object references: the key under which a reference is stored in the
//! replicated store, and the `path|created_time|addr` text of its value.

use vstd::prelude::*;
use vstd::string::*;

use crate::decimal::{decimal, is_digit, lemma_decimal_digits, lemma_decimal_parses, numeral_value, parses_as_u64, parse_u64, push_decimal};
use crate::text::{chars_of, substring};

verus! {

/// The text `refs/`.
pub open spec fn ref_prefix() -> Seq<char> {
    seq!['r', 'e', 'f', 's', '/']
}

/// The store key of the reference to `object_key`.
pub open spec fn obj_ref_key(object_key: Seq<char>) -> Seq<char> {
    ref_prefix() + object_key
}

/// The store key of an object key is `refs/` followed by the whole key:
/// five characters longer than the key, and two distinct object keys never
/// share a store key.
pub proof fn lemma_obj_ref_key_whole(object_key: Seq<char>, other: Seq<char>)
    ensures
        obj_ref_key(object_key).len() == object_key.len() + 5,
        obj_ref_key(object_key).take(5) == seq!['r', 'e', 'f', 's', '/'],
        obj_ref_key(object_key).skip(5) == object_key,
        obj_ref_key(object_key) == obj_ref_key(other) ==> object_key == other,
{
    assert(obj_ref_key(object_key).take(5) =~= seq!['r', 'e', 'f', 's', '/']);
    assert(obj_ref_key(object_key).skip(5) =~= object_key);
    assert(obj_ref_key(other).skip(5) =~= other);
}

/// The separator between the fields of a reference value.
pub open spec fn bar() -> char {
    '|'
}

/// The stored text of a reference: `path|created_time|addr`.
pub open spec fn obj_ref_value(path: Seq<char>, created_time: nat, addr: Seq<char>) -> Seq<char> {
    path + seq![bar()] + decimal(created_time) + seq![bar()] + addr
}

/// The index of the first `|` of `s` at or after `from`, or the length of
/// `s` where there is none.
pub open spec fn next_bar(s: Seq<char>, from: int) -> int
    decreases s.len() - from,
{
    if from < 0 || from >= s.len() {
        s.len() as int
    } else if s[from] == bar() {
        from
    } else {
        next_bar(s, from + 1)
    }
}

/// End of the path field: the first `|`.
pub open spec fn path_end(s: Seq<char>) -> int {
    next_bar(s, 0)
}

/// End of the time field: the second `|`.
pub open spec fn time_end(s: Seq<char>) -> int {
    next_bar(s, path_end(s) + 1)
}

/// End of the address field: the third `|`, or the end of the text.
pub open spec fn addr_end(s: Seq<char>) -> int {
    next_bar(s, time_end(s) + 1)
}

/// Whether `s` can be read as a reference value: it has at least two `|`,
/// and the text between the first two is a `u64` numeral.
pub open spec fn is_obj_ref_value(s: Seq<char>) -> bool {
    &&& path_end(s) < s.len()
    &&& time_end(s) < s.len()
    &&& parses_as_u64(s.subrange(path_end(s) + 1, time_end(s)))
}

/// The three fields read from a reference value; text after a third `|`
/// is not part of any field.
pub open spec fn obj_ref_fields(s: Seq<char>) -> (Seq<char>, nat, Seq<char>) {
    (
        s.subrange(0, path_end(s)),
        numeral_value(s.subrange(path_end(s) + 1, time_end(s))),
        s.subrange(time_end(s) + 1, addr_end(s)),
    )
}

/// Whether `s` holds no `|`.
pub open spec fn bar_free(s: Seq<char>) -> bool {
    forall|i: int| 0 <= i < s.len() ==> #[trigger] s[i] != bar()
}

proof fn lemma_next_bar_range(s: Seq<char>, from: int)
    requires
        0 <= from,
    ensures
        from <= next_bar(s, from) <= s.len() || (from > s.len() && next_bar(s, from) == s.len()),
        next_bar(s, from) < s.len() ==> s[next_bar(s, from)] == bar(),
        forall|k: int| from <= k < next_bar(s, from) ==> s[k] != bar(),
    decreases s.len() - from,
{
    if from < s.len() && s[from] != bar() {
        lemma_next_bar_range(s, from + 1);
    }
}

/// The first `|` at or after `from` is at `to`, where nothing in
/// `from..to` is a `|` and `to` is a `|` or the end.
proof fn lemma_next_bar_at(s: Seq<char>, from: int, to: int)
    requires
        0 <= from <= to <= s.len(),
        forall|k: int| from <= k < to ==> s[k] != bar(),
        to < s.len() ==> s[to] == bar(),
    ensures
        next_bar(s, from) == to,
    decreases to - from,
{
    if from < to {
        lemma_next_bar_at(s, from + 1, to);
    }
}

/// A reference value written from a path and an address that hold no `|`
/// reads back as the same three fields.
pub proof fn lemma_obj_ref_roundtrip(path: Seq<char>, created_time: u64, addr: Seq<char>)
    requires
        bar_free(path),
        bar_free(addr),
    ensures
        is_obj_ref_value(obj_ref_value(path, created_time as nat, addr)),
        obj_ref_fields(obj_ref_value(path, created_time as nat, addr)) == (
            path,
            created_time as nat,
            addr,
        ),
{
    let d = decimal(created_time as nat);
    let s = obj_ref_value(path, created_time as nat, addr);
    lemma_decimal_parses(created_time);
    lemma_decimal_digits(created_time as nat);
    let i = path.len() as int;
    let j = i + 1 + d.len();
    assert(s.len() == j + 1 + addr.len());
    assert forall|k: int| 0 <= k < i implies s[k] != bar() by {
        assert(s[k] == path[k]);
    }
    assert(s[i] == bar());
    lemma_next_bar_at(s, 0, i);
    assert forall|k: int| i + 1 <= k < j implies s[k] != bar() by {
        assert(s[k] == d[k - i - 1]);
        assert(is_digit(d[k - i - 1]));
    }
    assert(s[j] == bar());
    lemma_next_bar_at(s, i + 1, j);
    assert forall|k: int| j + 1 <= k < s.len() implies s[k] != bar() by {
        assert(s[k] == addr[k - j - 1]);
    }
    lemma_next_bar_at(s, j + 1, s.len() as int);
    assert(s.subrange(0, i) =~= path);
    assert(s.subrange(i + 1, j) =~= d);
    assert(s.subrange(j + 1, s.len() as int) =~= addr);
}

/// Position of the first `|` of `cs` at or after `from`.
fn find_bar(cs: &Vec<char>, from: usize) -> (r: usize)
    requires
        from <= cs@.len(),
    ensures
        r == next_bar(cs@, from as int),
{
    let mut i = from;
    while i < cs.len()
        invariant
            from <= i <= cs@.len(),
            next_bar(cs@, from as int) == next_bar(cs@, i as int),
        decreases cs@.len() - i,
    {
        if cs[i] == '|' {
            return i;
        }
        i = i + 1;
    }
    i
}

/// The store key of the reference to `object_key`: `refs/` then the key.
pub fn serialize_obj_ref_key(object_key: &str) -> (k: String)
    ensures
        k@ == obj_ref_key(object_key@),
{
    proof {
        reveal_strlit("refs/");
    }
    let mut k = String::from_str("refs/");
    k.append(object_key);
    k
}

/// The text of a reference with the given creation time.
pub fn format_obj_ref_value(path: &str, created_time: u64, addr: &str) -> (v: String)
    ensures
        v@ == obj_ref_value(path@, created_time as nat, addr@),
{
    proof {
        reveal_strlit("|");
    }
    let mut v = String::from_str(path);
    v.append("|");
    push_decimal(created_time, &mut v);
    v.append("|");
    v.append(addr);
    assert(v@ =~= obj_ref_value(path@, created_time as nat, addr@));
    v
}

/// Declares `std::time::SystemTime`, a reading of the system clock.
#[verifier::external_type_specification]
#[verifier::external_body]
pub struct ExSystemTime(std::time::SystemTime);

/// Wraps `std::time::SystemTime::now`: the current time of the system
/// clock. Nothing is claimed of the value.
#[verifier::external_body]
fn system_time_now() -> std::time::SystemTime {
    std::time::SystemTime::now()
}

/// Wraps `std::time::SystemTime::duration_since` with `UNIX_EPOCH` as the
/// earlier time: the time elapsed since the epoch, `None` where the clock
/// reads earlier than the epoch. Nothing is claimed of the value.
#[verifier::external_body]
fn elapsed_since_unix_epoch(t: &std::time::SystemTime) -> Option<core::time::Duration> {
    match t.duration_since(std::time::UNIX_EPOCH) {
        Ok(d) => Some(d),
        Err(_) => None,
    }
}

/// Wraps `std::time::Duration::as_secs`: the whole seconds of `d`.
/// Nothing is claimed of the value.
#[verifier::external_body]
fn whole_seconds(d: &core::time::Duration) -> u64 {
    d.as_secs()
}

/// Seconds since the Unix epoch by the system clock, 0 where the clock
/// reads earlier than the epoch.
fn unix_seconds_now() -> u64 {
    let now = system_time_now();
    match elapsed_since_unix_epoch(&now) {
        Some(d) => whole_seconds(&d),
        None => 0,
    }
}

/// The text of a reference: `path|created_time|addr`. A creation time of 0
/// stands for "now": the current Unix time in seconds is written instead.
pub fn serialize_obj_ref_value(path: &str, created_time: u64, addr: &str) -> (v: String)
    ensures
        created_time != 0 ==> v@ == obj_ref_value(path@, created_time as nat, addr@),
        created_time == 0 ==> exists|t: u64| v@ == obj_ref_value(path@, t as nat, addr@),
{
    let mut t = created_time;
    if t == 0 {
        t = unix_seconds_now();
    }
    format_obj_ref_value(path, t, addr)
}

/// Reads a reference value: `Some` exactly where `value` has the form that
/// [`deserialize_obj_ref_value`] accepts, with its three fields.
pub fn parse_obj_ref_value(value: &str) -> (r: Option<(String, u64, String)>)
    ensures
        r is Some <==> is_obj_ref_value(value@),
        r matches Some(f) ==> (f.0@, f.1 as nat, f.2@) == obj_ref_fields(value@),
{
    let cs = chars_of(value);
    let n = cs.len();
    let i = find_bar(&cs, 0);
    if i >= n {
        return None;
    }
    let j = find_bar(&cs, i + 1);
    if j >= n {
        return None;
    }
    proof {
        lemma_next_bar_range(cs@, 0);
        lemma_next_bar_range(cs@, (i + 1) as int);
    }
    match parse_u64(&cs, i + 1, j) {
        None => None,
        Some(t) => {
            let k = find_bar(&cs, j + 1);
            proof {
                lemma_next_bar_range(cs@, (j + 1) as int);
            }
            let path = substring(value, 0, i);
            let addr = substring(value, j + 1, k);
            Some((path, t, addr))
        },
    }
}

/// Reads the `path`, creation time and address of a reference value.
pub fn deserialize_obj_ref_value(value: &str) -> (r: (String, u64, String))
    requires
        is_obj_ref_value(value@),
    ensures
        (r.0@, r.1 as nat, r.2@) == obj_ref_fields(value@),
{
    match parse_obj_ref_value(value) {
        Some(f) => f,
        None => {
            proof {
                assert(false);
            }
            (String::new(), 0, String::new())
        },
    }
}

} // verus!
