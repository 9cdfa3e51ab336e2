use vstd::prelude::*;

use crate::text::{chars_eq, chars_of, subvec};

verus! {

/// Whether `c` is an ASCII hexadecimal digit.
pub open spec fn is_hex_digit(c: char) -> bool {
    ||| '0' as u32 <= c as u32 && c as u32 <= '9' as u32
    ||| 'a' as u32 <= c as u32 && c as u32 <= 'f' as u32
    ||| 'A' as u32 <= c as u32 && c as u32 <= 'F' as u32
}

/// The numeric value of an ASCII hexadecimal digit.
pub open spec fn hex_value(c: char) -> int {
    if '0' as u32 <= c as u32 && c as u32 <= '9' as u32 {
        c as u32 - '0' as u32
    } else if 'a' as u32 <= c as u32 && c as u32 <= 'f' as u32 {
        c as u32 - 'a' as u32 + 10
    } else {
        c as u32 - 'A' as u32 + 10
    }
}

/// A percent escape decodes only when both digits are hexadecimal and
/// the coded value is an ASCII code point.
pub open spec fn escape_ok(h: char, l: char) -> bool {
    is_hex_digit(h) && is_hex_digit(l) && 16 * hex_value(h) + hex_value(l) < 128
}

/// The character a percent escape codes for.
pub open spec fn escape_char(h: char, l: char) -> char {
    ((16 * hex_value(h) + hex_value(l)) as u8) as char
}

/// `rest` with `p` put in front, when `rest` decodes at all.
pub open spec fn opt_prepend(p: Seq<char>, rest: Option<Seq<char>>) -> Option<Seq<char>> {
    match rest {
        Some(r) => Some(p + r),
        None => None,
    }
}

/// The URL decoding of `s` from position `i` on: '+' stands for a
/// space, a percent escape for the ASCII character it codes, and any
/// other character for itself; a malformed escape spoils the whole.
pub open spec fn decoded_from(s: Seq<char>, i: int) -> Option<Seq<char>>
    decreases s.len() - i,
{
    if i < 0 || i >= s.len() {
        Some(Seq::empty())
    } else if s[i] == '+' {
        opt_prepend(seq![' '], decoded_from(s, i + 1))
    } else if s[i] == '%' {
        if i + 2 < s.len() && escape_ok(s[i + 1], s[i + 2]) {
            opt_prepend(seq![escape_char(s[i + 1], s[i + 2])], decoded_from(s, i + 3))
        } else {
            None
        }
    } else {
        opt_prepend(seq![s[i]], decoded_from(s, i + 1))
    }
}

/// The URL decoding of a whole key or value.
pub open spec fn decoded(s: Seq<char>) -> Option<Seq<char>> {
    decoded_from(s, 0)
}

fn hex_digit_value(c: char) -> (r: Option<u32>)
    ensures
        match r {
            Some(v) => is_hex_digit(c) && v as int == hex_value(c) && v < 16,
            None => !is_hex_digit(c),
        },
{
    let u = c as u32;
    if '0' as u32 <= u && u <= '9' as u32 {
        Some(u - '0' as u32)
    } else if 'a' as u32 <= u && u <= 'f' as u32 {
        Some(u - 'a' as u32 + 10)
    } else if 'A' as u32 <= u && u <= 'F' as u32 {
        Some(u - 'A' as u32 + 10)
    } else {
        None
    }
}

proof fn lemma_prepend_push(p: Seq<char>, c: char, rest: Option<Seq<char>>)
    ensures
        opt_prepend(p, opt_prepend(seq![c], rest)) == opt_prepend(p.push(c), rest),
{
    match rest {
        Some(r) => {
            assert(p + (seq![c] + r) =~= p.push(c) + r);
        },
        None => {},
    }
}

/// Decodes one key or value; reports nothing when an escape is malformed.
pub fn percent_decode(s: &Vec<char>) -> (r: Option<Vec<char>>)
    ensures
        match r {
            Some(out) => decoded(s@) == Some(out@),
            None => decoded(s@) is None,
        },
{
    let slen = s.len();
    let mut out: Vec<char> = Vec::new();
    let mut i: usize = 0;
    proof {
        match decoded_from(s@, 0) {
            Some(r0) => {
                assert(Seq::<char>::empty() + r0 =~= r0);
            },
            None => {},
        }
    }
    while i < slen
        invariant
            slen == s@.len(),
            i <= slen,
            decoded(s@) == opt_prepend(out@, decoded_from(s@, i as int)),
        decreases slen - i,
    {
        let c = s[i];
        let ghost out0 = out@;
        if c == '+' {
            out.push(' ');
            proof {
                lemma_prepend_push(out0, ' ', decoded_from(s@, i + 1));
            }
            i += 1;
        } else if c == '%' {
            if slen - i > 2 {
                let hv = hex_digit_value(s[i + 1]);
                let lv = hex_digit_value(s[i + 2]);
                match (hv, lv) {
                    (Some(h), Some(l)) => {
                        let v = 16 * h + l;
                        if v < 128 {
                            let dc = (v as u8) as char;
                            out.push(dc);
                            proof {
                                assert(escape_ok(s@[i as int + 1], s@[i as int + 2]));
                                assert(dc == escape_char(s@[i as int + 1], s@[i as int + 2]));
                                lemma_prepend_push(out0, dc, decoded_from(s@, i + 3));
                            }
                            i += 3;
                        } else {
                            proof {
                                assert(decoded_from(s@, i as int) is None);
                            }
                            return None;
                        }
                    },
                    _ => {
                        proof {
                            assert(decoded_from(s@, i as int) is None);
                        }
                        return None;
                    },
                }
            } else {
                proof {
                    assert(decoded_from(s@, i as int) is None);
                }
                return None;
            }
        } else {
            out.push(c);
            proof {
                lemma_prepend_push(out0, c, decoded_from(s@, i + 1));
            }
            i += 1;
        }
    }
    proof {
        assert(out@ + Seq::<char>::empty() =~= out@);
    }
    Some(out)
}

/// The position of the first '&' at or after `i`, or the end of `q`.
pub open spec fn seg_end(q: Seq<char>, i: int) -> int
    decreases q.len() - i,
{
    if i < 0 || i >= q.len() {
        q.len() as int
    } else if q[i] == '&' {
        i
    } else {
        seg_end(q, i + 1)
    }
}

proof fn lemma_seg_end(q: Seq<char>, i: int)
    requires
        0 <= i <= q.len(),
    ensures
        i <= seg_end(q, i) <= q.len(),
    decreases q.len() - i,
{
    if i < q.len() && q[i] != '&' {
        lemma_seg_end(q, i + 1);
    }
}

/// The position of the first '=' in `q` between `i` and `end`, or `end`.
pub open spec fn eq_in_seg(q: Seq<char>, i: int, end: int) -> int
    decreases end - i,
{
    if i < 0 || i >= end {
        end
    } else if q[i] == '=' {
        i
    } else {
        eq_in_seg(q, i + 1, end)
    }
}

/// The raw key of the segment beginning at `i`: up to its first '='.
pub open spec fn seg_key(q: Seq<char>, i: int) -> Seq<char> {
    q.subrange(i, eq_in_seg(q, i, seg_end(q, i)))
}

/// The raw value of the segment beginning at `i`: what follows its
/// first '=', or empty when the segment carries none.
pub open spec fn seg_value(q: Seq<char>, i: int) -> Seq<char> {
    let j = seg_end(q, i);
    let e = eq_in_seg(q, i, j);
    if e < j {
        q.subrange(e + 1, j)
    } else {
        Seq::empty()
    }
}

/// Every key and value from position `i` on decodes.
pub open spec fn segments_ok_from(q: Seq<char>, i: int) -> bool
    decreases q.len() - i,
    via segments_ok_from_dec
{
    if i < 0 || i >= q.len() {
        true
    } else {
        let j = seg_end(q, i);
        decoded(seg_key(q, i)) is Some && decoded(seg_value(q, i)) is Some && (j >= q.len()
            || segments_ok_from(q, j + 1))
    }
}

#[via_fn]
proof fn segments_ok_from_dec(q: Seq<char>, i: int) {
    if 0 <= i < q.len() {
        lemma_seg_end(q, i);
    }
}

/// How many segments from position `i` on carry the decoded key `name`.
pub open spec fn key_count_from(q: Seq<char>, i: int, name: Seq<char>) -> int
    decreases q.len() - i,
    via key_count_from_dec
{
    if i < 0 || i >= q.len() {
        0
    } else {
        let j = seg_end(q, i);
        let here: int = if decoded(seg_key(q, i)) == Some(name) {
            1
        } else {
            0
        };
        here + (if j >= q.len() {
            0
        } else {
            key_count_from(q, j + 1, name)
        })
    }
}

#[via_fn]
proof fn key_count_from_dec(q: Seq<char>, i: int, name: Seq<char>) {
    if 0 <= i < q.len() {
        lemma_seg_end(q, i);
    }
}

/// The decoded value of the first segment from `i` on whose decoded key
/// is `name`; empty when there is none or its value does not decode.
pub open spec fn key_value_from(q: Seq<char>, i: int, name: Seq<char>) -> Seq<char>
    decreases q.len() - i,
    via key_value_from_dec
{
    if i < 0 || i >= q.len() {
        Seq::empty()
    } else {
        let j = seg_end(q, i);
        if decoded(seg_key(q, i)) == Some(name) {
            match decoded(seg_value(q, i)) {
                Some(v) => v,
                None => Seq::empty(),
            }
        } else if j >= q.len() {
            Seq::empty()
        } else {
            key_value_from(q, j + 1, name)
        }
    }
}

#[via_fn]
proof fn key_value_from_dec(q: Seq<char>, i: int, name: Seq<char>) {
    if 0 <= i < q.len() {
        lemma_seg_end(q, i);
    }
}

/// The target container named by the query string: present exactly when
/// every pair decodes and exactly one pair's key is `container`.
pub open spec fn query_container(q: Seq<char>) -> Option<Seq<char>> {
    if segments_ok_from(q, 0) && key_count_from(q, 0, "container"@) == 1 {
        Some(key_value_from(q, 0, "container"@))
    } else {
        None
    }
}

fn seg_end_at(q: &Vec<char>, i: usize) -> (j: usize)
    requires
        i <= q@.len(),
    ensures
        j as int == seg_end(q@, i as int),
        i <= j <= q@.len(),
{
    let mut j = i;
    while j < q.len()
        invariant
            i <= j <= q@.len(),
            seg_end(q@, i as int) == seg_end(q@, j as int),
        decreases q@.len() - j,
    {
        if q[j] == '&' {
            return j;
        }
        j += 1;
    }
    j
}

fn eq_to(q: &Vec<char>, i: usize, end: usize) -> (e: usize)
    requires
        i <= end <= q@.len(),
    ensures
        e as int == eq_in_seg(q@, i as int, end as int),
        i <= e <= end,
{
    let mut e = i;
    while e < end
        invariant
            i <= e <= end <= q@.len(),
            eq_in_seg(q@, i as int, end as int) == eq_in_seg(q@, e as int, end as int),
        decreases end - e,
    {
        if q[e] == '=' {
            return e;
        }
        e += 1;
    }
    e
}

/// The query parameters a request must carry: the target container.
pub struct HealthcheckParams {
    pub container: Vec<char>,
}

/// Reads the `container` parameter out of a URL query string: present
/// exactly when every pair decodes and exactly one pair names it.
pub fn parse_query(q: &Vec<char>) -> (r: Option<HealthcheckParams>)
    ensures
        match r {
            Some(p) => query_container(q@) == Some(p.container@),
            None => query_container(q@) is None,
        },
{
    let qlen = q.len();
    let name = chars_of("container");
    let mut i: usize = 0;
    let mut count: usize = 0;
    let mut value: Option<Vec<char>> = None;
    while i < qlen
        invariant
            qlen == q@.len(),
            i <= qlen,
            count <= i,
            name@ == "container"@,
            segments_ok_from(q@, 0) == segments_ok_from(q@, i as int),
            key_count_from(q@, 0, "container"@) == count + key_count_from(
                q@,
                i as int,
                "container"@,
            ),
            match value {
                Some(v) => count > 0 && v@ == key_value_from(q@, 0, "container"@),
                None => count == 0 && key_value_from(q@, 0, "container"@) == key_value_from(
                    q@,
                    i as int,
                    "container"@,
                ),
            },
        decreases qlen - i,
    {
        let j = seg_end_at(q, i);
        let e = eq_to(q, i, j);
        let key_raw = subvec(q, i, e);
        let val_raw = if e < j {
            subvec(q, e + 1, j)
        } else {
            Vec::new()
        };
        proof {
            assert(key_raw@ == seg_key(q@, i as int));
            assert(val_raw@ =~= seg_value(q@, i as int));
        }
        let dk = match percent_decode(&key_raw) {
            Some(d) => d,
            None => {
                proof {
                    assert(!segments_ok_from(q@, i as int));
                }
                return None;
            },
        };
        let dv = match percent_decode(&val_raw) {
            Some(d) => d,
            None => {
                proof {
                    assert(!segments_ok_from(q@, i as int));
                }
                return None;
            },
        };
        let is_name = chars_eq(&dk, &name);
        let ghost ip = i as int;
        let inext = if j < qlen {
            j + 1
        } else {
            qlen
        };
        proof {
            assert(segments_ok_from(q@, ip) == segments_ok_from(q@, inext as int));
            assert(key_count_from(q@, ip, "container"@) == (if is_name {
                1int
            } else {
                0int
            }) + key_count_from(q@, inext as int, "container"@));
            if is_name {
                assert(key_value_from(q@, ip, "container"@) == dv@);
            } else {
                assert(key_value_from(q@, ip, "container"@) == key_value_from(
                    q@,
                    inext as int,
                    "container"@,
                ));
            }
        }
        if is_name {
            count += 1;
            if value.is_none() {
                value = Some(dv);
            }
        }
        i = inext;
    }
    if count == 1 {
        match value {
            Some(v) => Some(HealthcheckParams { container: v }),
            None => {
                proof {
                    assert(false);
                }
                None
            },
        }
    } else {
        None
    }
}

} // verus!
