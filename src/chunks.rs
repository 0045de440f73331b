use vstd::prelude::*;
use vstd::string::StrSliceExecFns;
use vstd::string::StringExecFns;
use crate::text::{decimal_digits, digit_char, push_decimal, str_eq};

verus! {

/// The chunks of `bytes`, each `size` long but the last, which holds the rest.
pub open spec fn spec_chunks(bytes: Seq<u8>, size: nat) -> Seq<Seq<u8>>
    recommends
        size > 0,
    decreases bytes.len(),
{
    if size == 0 || bytes.len() == 0 {
        Seq::empty()
    } else if bytes.len() <= size {
        seq![bytes]
    } else {
        seq![bytes.subrange(0, size as int)] + spec_chunks(bytes.subrange(size as int, bytes.len() as int), size)
    }
}

/// Splits serialized key bytes into sequential chunks of `chunk_size` bytes (the last
/// may be shorter), to be written to files numbered from zero.
pub fn split_into_chunks(bytes: &[u8], chunk_size: usize) -> (r: Vec<Vec<u8>>)
    requires
        chunk_size > 0,
    ensures
        r@.map_values(|c: Vec<u8>| c@) == spec_chunks(bytes@, chunk_size as nat),
{
    let mut out: Vec<Vec<u8>> = Vec::new();
    let mut start: usize = 0;
    let n = bytes.len();
    assert(bytes@.subrange(0, n as int) =~= bytes@);
    assert(out@.map_values(|c: Vec<u8>| c@) + spec_chunks(bytes@, chunk_size as nat)
        =~= spec_chunks(bytes@, chunk_size as nat));
    while start < n
        invariant
            n == bytes@.len(),
            start <= n,
            chunk_size > 0,
            out@.map_values(|c: Vec<u8>| c@) + spec_chunks(bytes@.subrange(start as int, n as int), chunk_size as nat)
                == spec_chunks(bytes@, chunk_size as nat),
        decreases n - start,
    {
        let end = if n - start <= chunk_size { n } else { start + chunk_size };
        let mut chunk: Vec<u8> = Vec::new();
        let mut i: usize = start;
        while i < end
            invariant
                start <= i <= end <= n,
                n == bytes@.len(),
                chunk@ == bytes@.subrange(start as int, i as int),
            decreases end - i,
        {
            chunk.push(bytes[i]);
            i = i + 1;
            assert(chunk@ =~= bytes@.subrange(start as int, i as int));
        }
        let ghost rest = bytes@.subrange(start as int, n as int);
        let ghost before = out@.map_values(|c: Vec<u8>| c@);
        out.push(chunk);
        proof {
            assert(out@.map_values(|c: Vec<u8>| c@) =~= before.push(chunk@));
            if rest.len() <= chunk_size {
                assert(end == n);
                assert(bytes@.subrange(end as int, n as int) =~= Seq::<u8>::empty());
                assert(spec_chunks(rest, chunk_size as nat) == seq![rest]);
            } else {
                assert(rest.subrange(0, chunk_size as int) =~= chunk@);
                assert(rest.subrange(chunk_size as int, rest.len() as int) =~= bytes@.subrange(end as int, n as int));
            }
            assert(before.push(chunk@) + spec_chunks(bytes@.subrange(end as int, n as int), chunk_size as nat)
                =~= before + spec_chunks(rest, chunk_size as nat));
        }
        start = end;
    }
    assert(bytes@.subrange(n as int, n as int) =~= Seq::<u8>::empty());
    assert(out@.map_values(|c: Vec<u8>| c@) + Seq::<Seq<u8>>::empty() =~= out@.map_values(|c: Vec<u8>| c@));
    out
}

/// Putting the chunks back together, in order, gives back the bytes they were cut from;
/// so a key saved in chunks and read back by concatenation is the key saved whole.
pub proof fn lemma_chunks_concatenate(bytes: Seq<u8>, size: nat)
    requires
        size > 0,
    ensures
        spec_chunks(bytes, size).flatten() == bytes,
        forall|i: int| 0 <= i < spec_chunks(bytes, size).len() ==> {
            &&& 0 < (#[trigger] spec_chunks(bytes, size)[i]).len() <= size
            &&& i + 1 < spec_chunks(bytes, size).len() ==> spec_chunks(bytes, size)[i].len() == size
        },
    decreases bytes.len(),
{
    let c = spec_chunks(bytes, size);
    if bytes.len() == 0 {
    } else if bytes.len() <= size {
        assert(c.drop_first() =~= Seq::<Seq<u8>>::empty());
        assert(c.flatten() == c[0] + c.drop_first().flatten());
        assert(c[0] + Seq::<u8>::empty() =~= bytes);
    } else {
        let head = bytes.subrange(0, size as int);
        let tail = bytes.subrange(size as int, bytes.len() as int);
        lemma_chunks_concatenate(tail, size);
        assert(c.drop_first() =~= spec_chunks(tail, size));
        assert(c[0] == head);
        assert(head + tail =~= bytes);
        assert forall|i: int| 0 <= i < c.len() implies {
            &&& 0 < (#[trigger] c[i]).len() <= size
            &&& i + 1 < c.len() ==> c[i].len() == size
        } by {
            if i > 0 {
                assert(c[i] == spec_chunks(tail, size)[i - 1]);
            }
        }
    }
}

pub open spec fn is_digit(c: char) -> bool {
    '0' <= c && c <= '9'
}

/// Value of a run of decimal digits.
pub open spec fn digits_value(s: Seq<char>) -> nat
    decreases s.len(),
{
    if s.len() == 0 {
        0
    } else {
        digits_value(s.drop_last()) * 10 + ((s.last() as u32) - 48) as nat
    }
}

/// The name of the chunk file at position `index`.
pub open spec fn chunk_name(index: nat) -> Seq<char> {
    "chunk_"@ + decimal_digits(index)
}

/// The position a chunk file name carries: `chunk_` followed by one or more decimal
/// digits whose value fits in `u64`.
pub open spec fn spec_chunk_index(name: Seq<char>) -> Option<u64> {
    let digits = name.subrange(6, name.len() as int);
    if name.len() > 6 && name.subrange(0, 6) == "chunk_"@
        && (forall|i: int| 0 <= i < digits.len() ==> is_digit(#[trigger] digits[i]))
        && digits_value(digits) <= u64::MAX {
        Some(digits_value(digits) as u64)
    } else {
        None
    }
}

/// The name of the chunk file at position `index`: `chunk_` and the position in decimal.
pub fn chunk_file_name(index: u64) -> (r: String)
    ensures
        r@ == chunk_name(index as nat),
{
    let mut name = String::from_str("chunk_");
    push_decimal(&mut name, index);
    name
}

/// A prefix of a run of digits is worth no more than the whole run.
pub proof fn lemma_digits_value_prefix(s: Seq<char>, j: int)
    requires
        0 <= j <= s.len(),
        forall|i: int| 0 <= i < s.len() ==> is_digit(#[trigger] s[i]),
    ensures
        digits_value(s.subrange(0, j)) <= digits_value(s),
    decreases s.len() - j,
{
    if j < s.len() {
        let t = s.drop_last();
        assert(t.subrange(0, j) =~= s.subrange(0, j));
        assert forall|i: int| 0 <= i < t.len() implies is_digit(#[trigger] t[i]) by {
            assert(t[i] == s[i]);
        }
        lemma_digits_value_prefix(t, j);
        assert(is_digit(s[s.len() - 1]));
    } else {
        assert(s.subrange(0, j) =~= s);
    }
}

/// Reads the position from a chunk file's name; any other name gives nothing.
pub fn parse_chunk_index(name: &str) -> (r: Option<u64>)
    ensures
        r == spec_chunk_index(name@),
{
    proof {
        reveal_strlit("chunk_");
    }
    let len = name.unicode_len();
    if len <= 6 {
        return None;
    }
    if !str_eq(name.substring_char(0, 6), "chunk_") {
        return None;
    }
    let ghost digits = name@.subrange(6, len as int);
    let mut value: u64 = 0;
    let mut i: usize = 6;
    while i < len
        invariant
            6 <= i <= len,
            len == name@.len(),
            digits == name@.subrange(6, len as int),
            name@.subrange(0, 6) == "chunk_"@,
            forall|k: int| 0 <= k < i - 6 ==> is_digit(#[trigger] digits[k]),
            value as nat == digits_value(digits.subrange(0, i - 6)),
        decreases len - i,
    {
        let c = name.get_char(i);
        assert(c == digits[i - 6]);
        if c < '0' || c > '9' {
            assert(!is_digit(digits[i - 6]));
            return None;
        }
        let d = (c as u32 - 48) as u64;
        assert(digits.subrange(0, i - 5).drop_last() =~= digits.subrange(0, i - 6));
        if value > (u64::MAX - d) / 10 {
            proof {
                let s = digits.subrange(0, i - 5);
                assert(digits_value(s) == digits_value(digits.subrange(0, i - 6)) * 10 + d);
                if forall|k: int| 0 <= k < digits.len() ==> is_digit(#[trigger] digits[k]) {
                    lemma_digits_value_prefix(digits, i - 5);
                }
            }
            return None;
        }
        value = value * 10 + d;
        i = i + 1;
    }
    assert(digits.subrange(0, len - 6) =~= digits);
    Some(value)
}

/// The decimal notation of a number is digits that read back as the number.
pub proof fn lemma_decimal_digits_read_back(n: nat)
    ensures
        decimal_digits(n).len() >= 1,
        forall|i: int| 0 <= i < decimal_digits(n).len() ==> is_digit(#[trigger] decimal_digits(n)[i]),
        digits_value(decimal_digits(n)) == n,
    decreases n,
{
    lemma_digit_char_value(n % 10);
    if n < 10 {
        let s = decimal_digits(n);
        assert(s.drop_last() =~= Seq::<char>::empty());
        assert(n % 10 == n);
        assert(s.last() == digit_char(n));
        assert(digits_value(s) == digits_value(s.drop_last()) * 10 + ((s.last() as u32) - 48) as nat);
        assert(digits_value(Seq::<char>::empty()) == 0);
    } else {
        lemma_decimal_digits_read_back(n / 10);
        let s = decimal_digits(n);
        assert(s.drop_last() =~= decimal_digits(n / 10));
        assert(s.last() == digit_char(n % 10));
        assert(digits_value(s) == digits_value(s.drop_last()) * 10 + ((s.last() as u32) - 48) as nat);
        assert(n == (n / 10) * 10 + n % 10);
        assert forall|i: int| 0 <= i < s.len() implies is_digit(#[trigger] s[i]) by {
            if i < s.len() - 1 {
                assert(s[i] == decimal_digits(n / 10)[i]);
            }
        }
    }
}

/// A digit's character reads back as the digit.
pub proof fn lemma_digit_char_value(d: nat)
    requires
        d < 10,
    ensures
        is_digit(digit_char(d)),
        ((digit_char(d) as u32) - 48) as nat == d,
{
}

/// A chunk written under its position's name is read back at that position.
pub proof fn lemma_chunk_name_round_trip(index: u64)
    ensures
        spec_chunk_index(chunk_name(index as nat)) == Some(index),
{
    reveal_strlit("chunk_");
    lemma_decimal_digits_read_back(index as nat);
    let name = chunk_name(index as nat);
    assert(name.subrange(0, 6) =~= "chunk_"@);
    assert(name.subrange(6, name.len() as int) =~= decimal_digits(index as nat));
}

/// `r` lists, as (position, index into `names`), the chunk files among `names`.
pub open spec fn lists_chunks(r: Seq<(u64, usize)>, names: Seq<String>, upto: int) -> bool {
    &&& forall|k: int| 0 <= k < r.len() ==> (#[trigger] r[k]).1 < upto
        && spec_chunk_index(names[r[k].1 as int]@) == Some(r[k].0)
    &&& forall|k1: int, k2: int| 0 <= k1 < k2 < r.len() ==> (#[trigger] r[k1]).1 != (#[trigger] r[k2]).1
    &&& forall|j: int| 0 <= j < upto && (#[trigger] spec_chunk_index(names[j]@)) is Some
        ==> exists|k: int| 0 <= k < r.len() && r[k].1 == j
}

/// `r` is in increasing order of position.
pub open spec fn sorted_by_position(r: Seq<(u64, usize)>) -> bool {
    forall|k1: int, k2: int| 0 <= k1 < k2 < r.len() ==> (#[trigger] r[k1]).0 <= (#[trigger] r[k2]).0
}

/// Picks the chunk files out of a directory listing and orders them by the position
/// their names carry, as numbers (so `chunk_2` comes before `chunk_10`). Each entry is
/// the position and the index of the name in `names`.
pub fn order_chunk_files(names: &Vec<String>) -> (r: Vec<(u64, usize)>)
    ensures
        lists_chunks(r@, names@, names@.len() as int),
        sorted_by_position(r@),
{
    let mut out: Vec<(u64, usize)> = Vec::new();
    let mut j: usize = 0;
    while j < names.len()
        invariant
            j <= names@.len(),
            lists_chunks(out@, names@, j as int),
            sorted_by_position(out@),
        decreases names@.len() - j,
    {
        match parse_chunk_index(names[j].as_str()) {
            Some(position) => {
                let mut at: usize = 0;
                while at < out.len() && out[at].0 <= position
                    invariant
                        at <= out@.len(),
                        forall|k: int| 0 <= k < at ==> (#[trigger] out@[k]).0 <= position,
                    decreases out@.len() - at,
                {
                    at = at + 1;
                }
                let ghost before = out@;
                out.insert(at, (position, j));
                proof {
                    assert(out@ =~= before.subrange(0, at as int).push((position, j)) + before.subrange(at as int, before.len() as int));
                    assert forall|k: int| 0 <= k < out@.len() implies (#[trigger] out@[k]) ==
                        if k < at { before[k] } else if k == at { (position, j) } else { before[k - 1] } by {}
                    assert forall|k1: int, k2: int| 0 <= k1 < k2 < out@.len() implies
                        (#[trigger] out@[k1]).0 <= (#[trigger] out@[k2]).0 by {
                        if k1 < at && k2 > at {
                            assert(before[k1].0 <= position);
                        } else if k1 == at && k2 > at {
                            assert(at < before.len());
                            assert(!(before[at as int].0 <= position) || k2 - 1 == at);
                            if k2 - 1 > at {
                                assert(before[at as int].0 <= before[k2 - 1].0);
                            }
                        }
                    }
                    assert forall|i: int| 0 <= i < j + 1 && (#[trigger] spec_chunk_index(names@[i]@)) is Some
                        implies exists|k: int| 0 <= k < out@.len() && out@[k].1 == i by {
                        if i == j {
                            assert(out@[at as int].1 == i);
                        } else {
                            let k0 = choose|k: int| 0 <= k < before.len() && before[k].1 == i;
                            if k0 < at {
                                assert(out@[k0].1 == i);
                            } else {
                                assert(out@[k0 + 1].1 == i);
                            }
                        }
                    }
                }
            },
            None => {
                proof {
                    assert forall|i: int| 0 <= i < j + 1 && (#[trigger] spec_chunk_index(names@[i]@)) is Some
                        implies exists|k: int| 0 <= k < out@.len() && out@[k].1 == i by {
                        assert(i != j);
                    }
                }
            },
        }
        j = j + 1;
    }
    out
}

proof fn lemma_increasing_at_least_index(p: Seq<int>, k: int)
    requires
        0 <= k < p.len(),
        forall|i: int| 0 <= i < p.len() ==> 0 <= #[trigger] p[i],
        forall|i: int, j: int| 0 <= i < j < p.len() ==> #[trigger] p[i] < #[trigger] p[j],
    ensures
        p[k] >= k,
    decreases k,
{
    if k > 0 {
        lemma_increasing_at_least_index(p, k - 1);
        assert(p[k - 1] < p[k]);
    }
}

proof fn lemma_increasing_at_most_index(p: Seq<int>, k: int)
    requires
        0 <= k < p.len(),
        forall|i: int| 0 <= i < p.len() ==> #[trigger] p[i] < p.len(),
        forall|i: int, j: int| 0 <= i < j < p.len() ==> #[trigger] p[i] < #[trigger] p[j],
    ensures
        p[k] <= k,
    decreases p.len() - k,
{
    if k < p.len() - 1 {
        lemma_increasing_at_most_index(p, k + 1);
        assert(p[k] < p[k + 1]);
    }
}

/// A directory holding exactly the chunk files written for a key (`chunk_0` up to
/// `chunk_{n-1}`), listed in any order, is read back in the order the chunks were
/// written: one entry per file, at positions `0, 1, ..., n-1`. With
/// `lemma_chunks_concatenate`, a key saved in chunks reads back as the bytes of the key
/// saved whole.
pub proof fn lemma_chunk_listing_in_write_order(names: Seq<String>, r: Seq<(u64, usize)>)
    requires
        names.len() <= u64::MAX,
        forall|j: int| 0 <= j < names.len() ==>
            exists|i: nat| i < names.len() && (#[trigger] names[j])@ == chunk_name(i),
        forall|j1: int, j2: int| 0 <= j1 < j2 < names.len() ==> (#[trigger] names[j1])@ != (#[trigger] names[j2])@,
        lists_chunks(r, names, names.len() as int),
        sorted_by_position(r),
    ensures
        r.len() == names.len(),
        forall|k: int| 0 <= k < r.len() ==> (#[trigger] r[k]).0 == k,
{
    let n = names.len() as int;
    // Position of each name.
    assert forall|j: int| 0 <= j < n implies
        (#[trigger] spec_chunk_index(names[j]@)) matches Some(i) && i < n && names[j]@ == chunk_name(i as nat) by {
        let i = choose|i: nat| i < names.len() && names[j]@ == chunk_name(i);
        lemma_chunk_name_round_trip(i as u64);
    }
    // One entry per name.
    let js = r.map_values(|e: (u64, usize)| e.1 as int);
    assert(js.no_duplicates()) by {
        assert forall|a: int, b: int| 0 <= a < js.len() && 0 <= b < js.len() && a != b implies js[a] != js[b] by {
            if a < b {
                assert(r[a].1 != r[b].1);
            } else {
                assert(r[b].1 != r[a].1);
            }
        }
    }
    assert(js.to_set() =~= vstd::set_lib::set_int_range(0, n)) by {
        assert forall|x: int| js.to_set().contains(x) <==> 0 <= x < n by {
            if 0 <= x < n {
                assert(spec_chunk_index(names[x]@) is Some);
                let k = choose|k: int| 0 <= k < r.len() && r[k].1 == x;
                assert(js[k] == x);
            }
            if js.to_set().contains(x) {
                let k = choose|k: int| 0 <= k < js.len() && js[k] == x;
                assert(r[k].1 < n);
            }
        }
    }
    js.unique_seq_to_set();
    vstd::set_lib::lemma_int_range(0, n);
    // Positions are distinct, below n, and sorted: they are 0, 1, ..., n-1.
    let p = r.map_values(|e: (u64, usize)| e.0 as int);
    assert forall|k: int| 0 <= k < p.len() implies 0 <= #[trigger] p[k] < p.len() by {
        let j = r[k].1 as int;
        assert(spec_chunk_index(names[j]@) == Some(r[k].0));
    }
    assert forall|a: int, b: int| 0 <= a < b < p.len() implies #[trigger] p[a] < #[trigger] p[b] by {
        let ja = r[a].1 as int;
        let jb = r[b].1 as int;
        assert(ja != jb);
        assert(spec_chunk_index(names[ja]@) == Some(r[a].0));
        assert(spec_chunk_index(names[jb]@) == Some(r[b].0));
        assert(names[ja]@ == chunk_name(r[a].0 as nat));
        assert(names[jb]@ == chunk_name(r[b].0 as nat));
        if ja < jb {
            assert(names[ja]@ != names[jb]@);
        } else {
            assert(names[jb]@ != names[ja]@);
        }
        assert(r[a].0 <= r[b].0);
    }
    assert forall|k: int| 0 <= k < r.len() implies (#[trigger] r[k]).0 == k by {
        lemma_increasing_at_least_index(p, k);
        lemma_increasing_at_most_index(p, k);
    }
}

} // verus!
