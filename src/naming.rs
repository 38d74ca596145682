//! How a chunk part is named in the chunk store: `({id})-{seq}` with the
//! sequence number written in canonical decimal.
use vstd::prelude::*;

verus! {

/// The digit character for `d` (below ten).
pub open spec fn digit_char(d: nat) -> char {
    if d == 0 { '0' }
    else if d == 1 { '1' }
    else if d == 2 { '2' }
    else if d == 3 { '3' }
    else if d == 4 { '4' }
    else if d == 5 { '5' }
    else if d == 6 { '6' }
    else if d == 7 { '7' }
    else if d == 8 { '8' }
    else { '9' }
}

pub open spec fn is_digit(c: char) -> bool {
    '0' <= c && c <= '9'
}

pub open spec fn digit_value(c: char) -> nat {
    (c as int - '0' as int) as nat
}

/// Canonical decimal text of `n`: no sign, no leading zeros.
pub open spec fn decimal(n: nat) -> Seq<char>
    decreases n,
{
    if n < 10 {
        seq![digit_char(n)]
    } else {
        decimal(n / 10).push(digit_char(n % 10))
    }
}

/// The number that a run of digits denotes.
pub open spec fn digits_value(s: Seq<char>) -> nat
    decreases s.len(),
{
    if s.len() == 0 {
        0
    } else {
        digits_value(s.drop_last()) * 10 + digit_value(s.last())
    }
}

pub open spec fn all_digits(s: Seq<char>) -> bool {
    forall|i: int| 0 <= i < s.len() ==> is_digit(#[trigger] s[i])
}

/// What every part name of upload `id` starts with.
pub open spec fn chunk_prefix(id: Seq<char>) -> Seq<char> {
    seq!['('] + id + seq![')', '-']
}

/// The stored name of part `seq` of upload `id`.
pub open spec fn chunk_name(id: Seq<char>, seq: nat) -> Seq<char> {
    chunk_prefix(id) + decimal(seq)
}

/// A stored name that the locator attributes to upload `id`.
pub open spec fn belongs_to(id: Seq<char>, name: Seq<char>) -> bool {
    name.len() >= chunk_prefix(id).len() && name.subrange(0, chunk_prefix(id).len() as int)
        == chunk_prefix(id)
}

/// A name of upload `id` that is the name of no part.
pub open spec fn is_corrupt_name(id: Seq<char>, name: Seq<char>) -> bool {
    belongs_to(id, name) && forall|n: u32| name != #[trigger] chunk_name(id, n as nat)
}

pub open spec fn contains_delimiter(id: Seq<char>) -> bool {
    exists|i: int| 0 <= i < id.len() - 1 && #[trigger] id[i] == ')' && id[i + 1] == '-'
}

/// An id that cannot make a part name ambiguous.
pub open spec fn valid_upload_id(id: Seq<char>) -> bool {
    !contains_delimiter(id)
}

pub proof fn lemma_digit_char(d: nat)
    requires
        d < 10,
    ensures
        is_digit(digit_char(d)),
        digit_value(digit_char(d)) == d,
{
}

pub proof fn lemma_decimal(n: nat)
    ensures
        decimal(n).len() >= 1,
        all_digits(decimal(n)),
        digits_value(decimal(n)) == n,
    decreases n,
{
    lemma_digit_char(n % 10);
    if n < 10 {
        lemma_digit_char(n);
        assert(decimal(n).drop_last() =~= Seq::<char>::empty());
        assert(digits_value(Seq::<char>::empty()) == 0);
    } else {
        lemma_decimal(n / 10);
        assert(decimal(n).drop_last() =~= decimal(n / 10));
        assert(decimal(n).last() == digit_char(n % 10));
        assert((n / 10) * 10 + n % 10 == n) by (nonlinear_arith);
    }
}

/// A prefix of a run of digits denotes no more than the whole run.
pub proof fn lemma_prefix_value_le(s: Seq<char>, k: int)
    requires
        0 <= k <= s.len(),
    ensures
        digits_value(s.subrange(0, k)) <= digits_value(s),
    decreases s.len() - k,
{
    if k < s.len() {
        lemma_prefix_value_le(s, k + 1);
        assert(s.subrange(0, k + 1).drop_last() =~= s.subrange(0, k));
    } else {
        assert(s.subrange(0, k) =~= s);
    }
}

/// Every part name of `id` carries the prefix of `id`.
pub proof fn lemma_chunk_name_belongs(id: Seq<char>, n: nat)
    ensures
        belongs_to(id, chunk_name(id, n)),
{
    assert(chunk_name(id, n).subrange(0, chunk_prefix(id).len() as int) =~= chunk_prefix(id));
}

/// Distinct parts of one upload have distinct names.
pub proof fn lemma_chunk_name_injective(id: Seq<char>, m: nat, n: nat)
    requires
        chunk_name(id, m) == chunk_name(id, n),
    ensures
        m == n,
{
    let p = chunk_prefix(id).len() as int;
    assert(chunk_name(id, m).subrange(p, chunk_name(id, m).len() as int) =~= decimal(m));
    assert(chunk_name(id, n).subrange(p, chunk_name(id, n).len() as int) =~= decimal(n));
    lemma_decimal(m);
    lemma_decimal(n);
}

/// Part names cannot be mistaken across uploads: a part name of one valid
/// id carries the prefix of another valid id only if the ids are the same.
pub proof fn lemma_valid_ids_do_not_share_parts(id: Seq<char>, other: Seq<char>, n: nat)
    requires
        valid_upload_id(id),
        valid_upload_id(other),
        belongs_to(id, chunk_name(other, n)),
    ensures
        other == id,
{
    let name = chunk_name(other, n);
    let p = chunk_prefix(id);
    let a = id.len() as int;
    let b = other.len() as int;
    assert(name.len() == b + 3 + decimal(n).len());
    assert forall|k: int| 0 <= k < p.len() implies name[k] == p[k] by {
        assert(name.subrange(0, p.len() as int)[k] == name[k]);
    }
    assert forall|k: int| 0 <= k < b implies name[k + 1] == other[k] by {}
    assert(name[b + 1] == ')' && name[b + 2] == '-');
    assert forall|k: int| 0 <= k < a implies p[k + 1] == id[k] by {}
    assert(p[a + 1] == ')' && p[a + 2] == '-');
    if b > a + 1 {
        assert(other[a] == ')' && other[a + 1] == '-');
        assert(contains_delimiter(other));
    } else if b == a + 1 {
        assert(name[a + 2] == ')');
    } else if b + 1 < a {
        assert(id[b] == ')' && id[b + 1] == '-');
        assert(contains_delimiter(id));
    } else if b + 1 == a {
        assert(name[b + 2] == '-');
        assert(p[b + 2] == ')');
    } else {
        assert(other =~= id);
    }
}

fn digit_text(d: u64) -> (r: &'static str)
    requires
        d < 10,
    ensures
        r@ == seq![digit_char(d as nat)],
{
    proof {
        reveal_strlit("0");
        reveal_strlit("1");
        reveal_strlit("2");
        reveal_strlit("3");
        reveal_strlit("4");
        reveal_strlit("5");
        reveal_strlit("6");
        reveal_strlit("7");
        reveal_strlit("8");
        reveal_strlit("9");
    }
    if d == 0 { "0" }
    else if d == 1 { "1" }
    else if d == 2 { "2" }
    else if d == 3 { "3" }
    else if d == 4 { "4" }
    else if d == 5 { "5" }
    else if d == 6 { "6" }
    else if d == 7 { "7" }
    else if d == 8 { "8" }
    else { "9" }
}

/// Appends the canonical decimal text of `n` to `s`.
pub fn push_decimal(s: &mut String, n: u64)
    ensures
        final(s)@ == old(s)@ + decimal(n as nat),
    decreases n,
{
    if n >= 10 {
        push_decimal(s, n / 10);
    }
    s.append(digit_text(n % 10));
    proof {
        assert(final(s)@ =~= old(s)@ + decimal(n as nat));
    }
}

/// The canonical decimal text of `n`.
pub fn decimal_text(n: u64) -> (r: String)
    ensures
        r@ == decimal(n as nat),
{
    let mut s = String::new();
    push_decimal(&mut s, n);
    proof {
        assert(s@ =~= decimal(n as nat));
    }
    s
}

/// The name under which part `seq` of upload `id` is stored.
pub fn chunk_file_name(id: &str, seq: u32) -> (r: String)
    ensures
        r@ == chunk_name(id@, seq as nat),
{
    proof {
        reveal_strlit("(");
        reveal_strlit(")-");
    }
    let mut s = String::from_str("(");
    s.append(id);
    s.append(")-");
    push_decimal(&mut s, seq as u64);
    proof {
        assert(s@ =~= chunk_name(id@, seq as nat));
    }
    s
}

/// Whether `name` carries the prefix of upload `id`.
pub fn belongs_to_upload(id: &str, name: &str) -> (r: bool)
    ensures
        r == belongs_to(id@, name@),
{
    let id_len = id.unicode_len();
    let name_len = name.unicode_len();
    let ghost prefix = chunk_prefix(id@);
    assert(prefix.len() == id@.len() + 3);
    if name_len < id_len || name_len - id_len < 3 {
        return false;
    }
    if name.get_char(0) != '(' || name.get_char(id_len + 1) != ')' || name.get_char(id_len + 2)
        != '-' {
        proof {
            assert(prefix[0] == '(' && prefix[id_len + 1] == ')' && prefix[id_len + 2] == '-');
            assert(name@.subrange(0, prefix.len() as int)[0] == name@[0]);
            assert(name@.subrange(0, prefix.len() as int)[id_len + 1] == name@[id_len + 1]);
            assert(name@.subrange(0, prefix.len() as int)[id_len + 2] == name@[id_len + 2]);
        }
        return false;
    }
    let mut i: usize = 0;
    while i < id_len
        invariant
            id_len == id@.len(),
            name_len == name@.len(),
            name_len >= id_len + 3,
            prefix == chunk_prefix(id@),
            i <= id_len,
            name@[0] == '(' && name@[id_len + 1] == ')' && name@[id_len + 2] == '-',
            forall|k: int| 0 <= k < i ==> name@[k + 1] == id@[k],
        decreases id_len - i,
    {
        if name.get_char(i + 1) != id.get_char(i) {
            proof {
                assert(prefix[i + 1] == id@[i as int]);
                assert(name@.subrange(0, prefix.len() as int)[i + 1] == name@[i + 1]);
            }
            return false;
        }
        i = i + 1;
    }
    proof {
        assert(name@.subrange(0, chunk_prefix(id@).len() as int) =~= chunk_prefix(id@));
    }
    true
}

/// The sequence number of `name` if it is the stored name of a part of
/// upload `id`.
pub fn parse_chunk_name(id: &str, name: &str) -> (r: Option<u32>)
    ensures
        match r {
            Some(n) => name@ == chunk_name(id@, n as nat),
            None => forall|n: u32| name@ != #[trigger] chunk_name(id@, n as nat),
        },
{
    let id_len = id.unicode_len();
    let name_len = name.unicode_len();
    if name_len < id_len || name_len - id_len < 4 {
        proof {
            assert forall|n: u32| name@ != #[trigger] chunk_name(id@, n as nat) by {
                lemma_decimal(n as nat);
            }
        }
        return None;
    }
    let start = id_len + 3;
    let ghost digits = name@.subrange(start as int, name_len as int);
    let mut v: u64 = 0;
    let mut i: usize = start;
    while i < name_len
        invariant
            start <= i <= name_len,
            name_len == name@.len(),
            start == id@.len() + 3,
            digits == name@.subrange(start as int, name_len as int),
            v <= u32::MAX,
            v == digits_value(digits.subrange(0, i - start)),
            all_digits(digits.subrange(0, i - start)),
        decreases name_len - i,
    {
        let c = name.get_char(i);
        if !('0' <= c && c <= '9') {
            proof {
                assert forall|n: u32| name@ != #[trigger] chunk_name(id@, n as nat) by {
                    lemma_decimal(n as nat);
                    if name@ == chunk_name(id@, n as nat) {
                        assert(digits =~= decimal(n as nat));
                        assert(digits[i - start] == c);
                    }
                }
            }
            return None;
        }
        let d = (c as u32 - '0' as u32) as u64;
        v = v * 10 + d;
        proof {
            assert(digits.subrange(0, i + 1 - start).drop_last() =~= digits.subrange(0, i - start));
        }
        if v > 0xffff_ffff {
            proof {
                assert forall|n: u32| name@ != #[trigger] chunk_name(id@, n as nat) by {
                    lemma_decimal(n as nat);
                    if name@ == chunk_name(id@, n as nat) {
                        assert(digits =~= decimal(n as nat));
                        lemma_prefix_value_le(digits, i + 1 - start);
                    }
                }
            }
            return None;
        }
        i = i + 1;
    }
    let candidate = chunk_file_name(id, v as u32);
    let owned = String::from_str(name);
    if candidate == owned {
        Some(v as u32)
    } else {
        proof {
            assert(digits.subrange(0, name_len - start) =~= digits);
            assert forall|n: u32| name@ != #[trigger] chunk_name(id@, n as nat) by {
                lemma_decimal(n as nat);
                if name@ == chunk_name(id@, n as nat) {
                    assert(digits =~= decimal(n as nat));
                }
            }
        }
        None
    }
}

/// Whether `id` may name an upload.
pub fn is_valid_upload_id(id: &str) -> (r: bool)
    ensures
        r == valid_upload_id(id@),
{
    let len = id.unicode_len();
    let mut i: usize = 0;
    while i < len && i + 1 < len
        invariant
            len == id@.len(),
            i <= len,
            forall|k: int| 0 <= k < i && k < len - 1 ==> !(#[trigger] id@[k] == ')' && id@[k + 1] == '-'),
        decreases len - i,
    {
        if id.get_char(i) == ')' && id.get_char(i + 1) == '-' {
            return false;
        }
        i = i + 1;
    }
    true
}

} // verus!
