//! A reader for the definite-length subset of CBOR that claims records use.
//!
//! Items are never copied into a tree: the reader walks the byte buffer and
//! reports positions, so that callers pick out exactly the values they need.
use vstd::prelude::*;
use vstd::utf8::{decode_utf8, valid_utf8};

verus! {

/// `256` raised to `n`.
pub open spec fn pow256(n: nat) -> nat
    decreases n,
{
    if n == 0 {
        1
    } else {
        256 * pow256((n - 1) as nat)
    }
}

/// The unsigned integer written big-endian in `s`.
pub open spec fn be_value(s: Seq<u8>) -> nat
    decreases s.len(),
{
    if s.len() == 0 {
        0
    } else {
        (be_value(s.drop_last()) * 256 + s.last()) as nat
    }
}

/// How many argument bytes follow an initial byte with additional information
/// `info`; `-1` for the reserved and indefinite-length forms.
pub open spec fn argument_width(info: u8) -> int {
    if info < 24 {
        0
    } else if info == 24 {
        1
    } else if info == 25 {
        2
    } else if info == 26 {
        4
    } else if info == 27 {
        8
    } else {
        -1
    }
}

/// The head of the item at `pos`: its major type, its argument, and the
/// position just after the head.
pub open spec fn head_at(b: Seq<u8>, pos: int) -> Option<(u8, nat, int)> {
    if pos < 0 || pos >= b.len() {
        None
    } else {
        let major = b[pos] / 32;
        let info = b[pos] % 32;
        let width = argument_width(info);
        if width < 0 || pos + 1 + width > b.len() {
            None
        } else if width == 0 {
            Some((major, info as nat, pos + 1))
        } else {
            Some((major, be_value(b.subrange(pos + 1, pos + 1 + width)), pos + 1 + width))
        }
    }
}

/// Where `pending` consecutive well-formed items starting at `pos` end.
/// Integers, byte and text strings, arrays, maps, tags and the simple values
/// `false`, `true` and `null` are items; every item takes at least one byte.
pub open spec fn skip_items(b: Seq<u8>, pos: int, pending: nat) -> Option<int>
    decreases b.len() - pos,
{
    if pending == 0 {
        Some(pos)
    } else if pending > b.len() - pos {
        None
    } else {
        match head_at(b, pos) {
            None => None,
            Some((major, arg, next)) => {
                if major <= 1 {
                    skip_items(b, next, (pending - 1) as nat)
                } else if major <= 3 {
                    if next + arg <= b.len() {
                        skip_items(b, next + arg, (pending - 1) as nat)
                    } else {
                        None
                    }
                } else if major == 4 {
                    skip_items(b, next, (pending - 1 + arg) as nat)
                } else if major == 5 {
                    skip_items(b, next, (pending - 1 + 2 * arg) as nat)
                } else if major == 6 {
                    skip_items(b, next, pending)
                } else if next == pos + 1 && 20 <= arg <= 22 {
                    skip_items(b, next, (pending - 1) as nat)
                } else {
                    None
                }
            },
        }
    }
}

/// Where the well-formed item at `pos` ends.
pub open spec fn item_end(b: Seq<u8>, pos: int) -> Option<int> {
    skip_items(b, pos, 1)
}

proof fn lemma_pow256_positive(n: nat)
    ensures
        pow256(n) > 0,
    decreases n,
{
    if n > 0 {
        lemma_pow256_positive((n - 1) as nat);
    }
}

proof fn lemma_pow256_monotone(m: nat, n: nat)
    requires
        m <= n,
    ensures
        pow256(m) <= pow256(n),
    decreases n - m,
{
    if m < n {
        lemma_pow256_monotone(m, (n - 1) as nat);
        lemma_pow256_positive((n - 1) as nat);
    }
}

proof fn lemma_be_value_bound(s: Seq<u8>)
    ensures
        be_value(s) < pow256(s.len()),
    decreases s.len(),
{
    if s.len() > 0 {
        let p = s.drop_last();
        lemma_be_value_bound(p);
        let v = be_value(p);
        let q = pow256(p.len());
        assert(v * 256 + s.last() < q * 256) by (nonlinear_arith)
            requires
                v < q,
                s.last() < 256,
        ;
    }
}

/// Reads `width` big-endian bytes starting at `start`.
pub fn read_be(b: &[u8], start: usize, width: usize) -> (r: u128)
    requires
        width <= 16,
        start + width <= b@.len(),
    ensures
        r as nat == be_value(b@.subrange(start as int, start + width)),
        (r as nat) < pow256(width as nat),
{
    let n = b.len();
    let mut v: u128 = 0;
    let mut i: usize = 0;
    proof {
        reveal_with_fuel(pow256, 17);
        assert(pow256(16) == 0x1_0000_0000_0000_0000_0000_0000_0000_0000);
    }
    while i < width
        invariant
            i <= width,
            width <= 16,
            start + width <= b@.len(),
            n == b@.len(),
            v as nat == be_value(b@.subrange(start as int, start + i)),
            pow256(16) == 0x1_0000_0000_0000_0000_0000_0000_0000_0000,
        decreases width - i,
    {
        proof {
            lemma_be_value_bound(b@.subrange(start as int, start + i));
            lemma_pow256_monotone((i + 1) as nat, 16);
            let next = b@.subrange(start as int, start + i + 1);
            assert(next.drop_last() =~= b@.subrange(start as int, start + i));
        }
        v = v * 256 + b[start + i] as u128;
        i = i + 1;
    }
    proof {
        lemma_be_value_bound(b@.subrange(start as int, start + width));
    }
    v
}

/// Reads the head of the item at `pos`.
pub fn read_head(b: &[u8], pos: usize) -> (r: Option<(u8, u64, usize)>)
    ensures
        match r {
            Some((major, arg, next)) => head_at(b@, pos as int) == Some(
                (major, arg as nat, next as int),
            ),
            None => head_at(b@, pos as int) is None,
        },
{
    if pos >= b.len() {
        return None;
    }
    let major = b[pos] / 32;
    let info = b[pos] % 32;
    let width: usize = if info < 24 {
        0
    } else if info == 24 {
        1
    } else if info == 25 {
        2
    } else if info == 26 {
        4
    } else if info == 27 {
        8
    } else {
        return None;
    };
    if width > b.len() - pos - 1 {
        return None;
    }
    if width == 0 {
        Some((major, info as u64, pos + 1))
    } else {
        let arg = read_be(b, pos + 1, width);
        proof {
            reveal_with_fuel(pow256, 9);
            lemma_pow256_monotone(width as nat, 8);
        }
        Some((major, arg as u64, pos + 1 + width))
    }
}

/// Finds where `count` consecutive well-formed items starting at `pos` end.
pub fn skip(b: &[u8], pos: usize, count: usize) -> (r: Option<usize>)
    requires
        pos <= b@.len(),
    ensures
        match r {
            Some(end) => end <= b@.len() && skip_items(b@, pos as int, count as nat) == Some(
                end as int,
            ),
            None => skip_items(b@, pos as int, count as nat) is None,
        },
{
    let mut p: usize = pos;
    let mut pending: usize = count;
    loop
        invariant
            p <= b@.len(),
            skip_items(b@, pos as int, count as nat) == skip_items(b@, p as int, pending as nat),
        decreases b@.len() - p,
    {
        if pending == 0 {
            return Some(p);
        }
        if pending > b.len() - p {
            return None;
        }
        let (major, arg, next) = match read_head(b, p) {
            Some(h) => h,
            None => {
                return None;
            },
        };
        let room: usize = b.len() - next;
        if major <= 1 {
            pending = pending - 1;
        } else if major <= 3 {
            if arg > room as u64 {
                return None;
            }
            p = next + arg as usize;
            pending = pending - 1;
            continue;
        } else if major == 4 {
            if pending - 1 > room || arg > (room - (pending - 1)) as u64 {
                assert(skip_items(b@, next as int, (pending - 1 + arg) as nat) is None);
                return None;
            }
            pending = pending - 1 + arg as usize;
        } else if major == 5 {
            if pending - 1 > room || arg > ((room - (pending - 1)) / 2) as u64 {
                assert(skip_items(b@, next as int, (pending - 1 + 2 * arg) as nat) is None);
                return None;
            }
            pending = pending - 1 + 2 * (arg as usize);
        } else if major == 6 {
        } else if next == p + 1 && 20 <= arg && arg <= 22 {
            pending = pending - 1;
        } else {
            return None;
        }
        p = next;
    }
}

/// Where the contents of the string of major type `major` (2 for bytes, 3
/// for text) at `pos` lie.
pub open spec fn string_at(b: Seq<u8>, pos: int, major: u8) -> Option<(int, int)> {
    match head_at(b, pos) {
        Some((m, arg, next)) => if m == major && next + arg <= b.len() {
            Some((next, next + arg))
        } else {
            None
        },
        None => None,
    }
}

/// The raw bytes of the text string at `pos`.
pub open spec fn text_bytes(b: Seq<u8>, pos: int) -> Option<Seq<u8>> {
    match string_at(b, pos, 3) {
        Some((start, end)) => Some(b.subrange(start, end)),
        None => None,
    }
}

/// The characters of the text string at `pos`, when it is valid UTF-8.
pub open spec fn text_value(b: Seq<u8>, pos: int) -> Option<Seq<char>> {
    match text_bytes(b, pos) {
        Some(t) => if valid_utf8(t) {
            Some(decode_utf8(t))
        } else {
            None
        },
        None => None,
    }
}

/// The integer at `pos`: major type 0 holds `n`, major type 1 holds `-1 - n`.
pub open spec fn int_value(b: Seq<u8>, pos: int) -> Option<int> {
    match head_at(b, pos) {
        Some((major, arg, _next)) => if major == 0 {
            Some(arg as int)
        } else if major == 1 {
            Some(-1 - arg)
        } else {
            None
        },
        None => None,
    }
}

/// The number of entries of the map at `pos` and where its first key starts.
pub open spec fn map_at(b: Seq<u8>, pos: int) -> Option<(nat, int)> {
    match head_at(b, pos) {
        Some((major, arg, next)) => if major == 5 {
            Some((arg, next))
        } else {
            None
        },
        None => None,
    }
}

/// The number of elements of the array at `pos` and where its first one starts.
pub open spec fn array_at(b: Seq<u8>, pos: int) -> Option<(nat, int)> {
    match head_at(b, pos) {
        Some((major, arg, next)) => if major == 4 {
            Some((arg, next))
        } else {
            None
        },
        None => None,
    }
}

/// Whether the item at `pos` is the text `key`, or the integer `label`
/// when there is one.
pub open spec fn is_key(b: Seq<u8>, pos: int, key: Seq<u8>, label: Option<nat>) -> bool {
    text_bytes(b, pos) == Some(key) || match label {
        Some(n) => int_value(b, pos) == Some(n as int),
        None => false,
    }
}

/// Among `count` key/value entries starting at `pos`, where the value of the
/// first entry whose key is `key` (or `label`) starts.
pub open spec fn lookup(b: Seq<u8>, pos: int, count: nat, key: Seq<u8>, label: Option<nat>) -> Option<int>
    decreases count,
{
    if count == 0 {
        None
    } else {
        match item_end(b, pos) {
            None => None,
            Some(key_end) => if is_key(b, pos, key, label) {
                Some(key_end)
            } else {
                match item_end(b, key_end) {
                    Some(value_end) => lookup(b, value_end, (count - 1) as nat, key, label),
                    None => None,
                }
            },
        }
    }
}

/// Where the value stored under the text key `key`, or under the integer
/// key `label` when there is one, in the map at `pos` starts.
pub open spec fn labelled_field_at(b: Seq<u8>, pos: int, key: Seq<u8>, label: Option<nat>) -> Option<int> {
    match map_at(b, pos) {
        Some((count, first)) => lookup(b, first, count, key, label),
        None => None,
    }
}

/// Where the value stored under the text key `key` in the map at `pos` starts.
pub open spec fn field_at(b: Seq<u8>, pos: int, key: Seq<u8>) -> Option<int> {
    labelled_field_at(b, pos, key, None)
}

/// The texts of `count` consecutive text strings starting at `pos`.
pub open spec fn texts_from(b: Seq<u8>, pos: int, count: nat) -> Option<Seq<Seq<char>>>
    decreases count,
{
    if count == 0 {
        Some(Seq::empty())
    } else {
        match (text_value(b, pos), string_at(b, pos, 3)) {
            (Some(t), Some((_start, end))) => match texts_from(b, end, (count - 1) as nat) {
                Some(rest) => Some(seq![t] + rest),
                None => None,
            },
            _ => None,
        }
    }
}

/// A run of `count` texts has `count` elements.
pub proof fn lemma_texts_from_len(b: Seq<u8>, pos: int, count: nat)
    requires
        texts_from(b, pos, count) is Some,
    ensures
        texts_from(b, pos, count)->Some_0.len() == count,
    decreases count,
{
    if count > 0 {
        let end = string_at(b, pos, 3)->Some_0.1;
        lemma_texts_from_len(b, end, (count - 1) as nat);
    }
}

/// The elements of the array at `pos`, when all of them are text strings.
pub open spec fn text_array(b: Seq<u8>, pos: int) -> Option<Seq<Seq<char>>> {
    match array_at(b, pos) {
        Some((count, first)) => texts_from(b, first, count),
        None => None,
    }
}

/// The characters of each string.
pub open spec fn strings_view(v: Seq<String>) -> Seq<Seq<char>> {
    v.map_values(|s: String| s@)
}

/// Relies on `String::from_utf8`: it accepts exactly the valid UTF-8 byte
/// strings and keeps the characters they encode.
#[verifier::external_body]
fn string_from_utf8(v: Vec<u8>) -> (r: Option<String>)
    ensures
        match r {
            Some(s) => valid_utf8(v@) && s@ == decode_utf8(v@),
            None => !valid_utf8(v@),
        },
{
    String::from_utf8(v).ok()
}

/// Copies `b[start..end]`.
fn copy_range(b: &[u8], start: usize, end: usize) -> (r: Vec<u8>)
    requires
        start <= end <= b@.len(),
    ensures
        r@ == b@.subrange(start as int, end as int),
{
    let mut r: Vec<u8> = Vec::new();
    let mut i: usize = start;
    while i < end
        invariant
            start <= i <= end <= b@.len(),
            r@ == b@.subrange(start as int, i as int),
        decreases end - i,
    {
        r.push(b[i]);
        assert(r@ =~= b@.subrange(start as int, i + 1));
        i = i + 1;
    }
    r
}

/// Locates the contents of the string of major type `major` at `pos`.
pub fn read_string(b: &[u8], pos: usize, major: u8) -> (r: Option<(usize, usize)>)
    ensures
        match r {
            Some((start, end)) => start <= end <= b@.len() && string_at(b@, pos as int, major)
                == Some((start as int, end as int)),
            None => string_at(b@, pos as int, major) is None,
        },
{
    match read_head(b, pos) {
        Some((m, arg, next)) => {
            if m == major && arg <= (b.len() - next) as u64 {
                Some((next, next + arg as usize))
            } else {
                None
            }
        },
        None => None,
    }
}

/// Reads the text string at `pos`.
pub fn read_text(b: &[u8], pos: usize) -> (r: Option<String>)
    ensures
        match r {
            Some(s) => text_value(b@, pos as int) == Some(s@),
            None => text_value(b@, pos as int) is None,
        },
{
    match read_string(b, pos, 3) {
        Some((start, end)) => string_from_utf8(copy_range(b, start, end)),
        None => None,
    }
}

/// Whether the item at `pos` is a text string with exactly the bytes `key`.
pub fn text_is(b: &[u8], pos: usize, key: &[u8]) -> (r: bool)
    ensures
        r == (text_bytes(b@, pos as int) == Some(key@)),
{
    let (start, end) = match read_string(b, pos, 3) {
        Some(range) => range,
        None => {
            return false;
        },
    };
    if end - start != key.len() {
        assert(b@.subrange(start as int, end as int).len() != key@.len());
        return false;
    }
    let mut i: usize = 0;
    while i < key.len()
        invariant
            start <= end <= b@.len(),
            end - start == key@.len(),
            text_bytes(b@, pos as int) == Some(b@.subrange(start as int, end as int)),
            i <= key@.len(),
            forall|j: int| 0 <= j < i ==> b@[start + j] == key@[j],
        decreases key@.len() - i,
    {
        if b[start + i] != key[i] {
            assert(b@.subrange(start as int, end as int)[i as int] == b@[start + i]);
            assert(b@.subrange(start as int, end as int) != key@);
            return false;
        }
        i = i + 1;
    }
    assert(b@.subrange(start as int, end as int) =~= key@);
    true
}

/// Reads the integer at `pos`.
pub fn read_int(b: &[u8], pos: usize) -> (r: Option<i128>)
    ensures
        match r {
            Some(v) => int_value(b@, pos as int) == Some(v as int),
            None => int_value(b@, pos as int) is None,
        },
{
    match read_head(b, pos) {
        Some((major, arg, _next)) => {
            if major == 0 {
                Some(arg as i128)
            } else if major == 1 {
                Some(-1 - arg as i128)
            } else {
                None
            }
        },
        None => None,
    }
}

/// An integer key as a number.
pub open spec fn label_view(label: Option<u64>) -> Option<nat> {
    match label {
        Some(n) => Some(n as nat),
        None => None,
    }
}

/// Finds the value stored under the text key `key`, or under the integer
/// key `label` when there is one, in the map at `pos`.
pub fn find_labelled_field(b: &[u8], pos: usize, key: &[u8], label: Option<u64>) -> (r: Option<usize>)
    ensures
        match r {
            Some(v) => v <= b@.len() && labelled_field_at(
                b@,
                pos as int,
                key@,
                label_view(label),
            ) == Some(v as int),
            None => labelled_field_at(b@, pos as int, key@, label_view(label)) is None,
        },
{
    let ghost spec_label = label_view(label);
    let (major, count, first) = match read_head(b, pos) {
        Some(h) => h,
        None => {
            return None;
        },
    };
    if major != 5 {
        return None;
    }
    let mut p: usize = first;
    let mut remaining: u64 = count;
    while remaining > 0
        invariant
            p <= b@.len(),
            spec_label == label_view(label),
            labelled_field_at(b@, pos as int, key@, spec_label) == lookup(
                b@,
                p as int,
                remaining as nat,
                key@,
                spec_label,
            ),
        decreases remaining,
    {
        let key_end = match skip(b, p, 1) {
            Some(e) => e,
            None => {
                return None;
            },
        };
        let mut found = text_is(b, p, key);
        if let Some(n) = label {
            match read_int(b, p) {
                Some(i) => {
                    if i == n as i128 {
                        found = true;
                    }
                },
                None => {},
            }
        }
        assert(found == is_key(b@, p as int, key@, spec_label));
        if found {
            return Some(key_end);
        }
        let value_end = match skip(b, key_end, 1) {
            Some(e) => e,
            None => {
                return None;
            },
        };
        p = value_end;
        remaining = remaining - 1;
    }
    None
}

/// Finds the value stored under the text key `key` in the map at `pos`.
pub fn find_field(b: &[u8], pos: usize, key: &[u8]) -> (r: Option<usize>)
    ensures
        match r {
            Some(v) => v <= b@.len() && field_at(b@, pos as int, key@) == Some(v as int),
            None => field_at(b@, pos as int, key@) is None,
        },
{
    find_labelled_field(b, pos, key, None)
}

/// Reads the array at `pos` when all of its elements are text strings.
pub fn read_text_array(b: &[u8], pos: usize) -> (r: Option<Vec<String>>)
    ensures
        match r {
            Some(v) => text_array(b@, pos as int) == Some(strings_view(v@)),
            None => text_array(b@, pos as int) is None,
        },
{
    let (major, count, first) = match read_head(b, pos) {
        Some(h) => h,
        None => {
            return None;
        },
    };
    if major != 4 {
        return None;
    }
    let mut out: Vec<String> = Vec::new();
    let mut p: usize = first;
    let mut i: u64 = 0;
    while i < count
        invariant
            i <= count,
            text_array(b@, pos as int) == match texts_from(b@, p as int, (count - i) as nat) {
                Some(rest) => Some(strings_view(out@) + rest),
                None => None,
            },
        decreases count - i,
    {
        let t = match read_text(b, p) {
            Some(t) => t,
            None => {
                return None;
            },
        };
        let (_start, end) = match read_string(b, p, 3) {
            Some(range) => range,
            None => {
                return None;
            },
        };
        let ghost before = out@;
        out.push(t);
        proof {
            assert(strings_view(out@) =~= strings_view(before).push(t@));
            let k = (count - i - 1) as nat;
            match texts_from(b@, end as int, k) {
                Some(rest) => {
                    assert(strings_view(out@) + rest =~= strings_view(before) + (seq![t@] + rest));
                },
                None => {},
            }
        }
        p = end;
        i = i + 1;
    }
    assert(strings_view(out@) + Seq::<Seq<char>>::empty() =~= strings_view(out@));
    Some(out)
}

} // verus!
