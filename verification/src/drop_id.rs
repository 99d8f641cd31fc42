use vstd::prelude::*;
use vstd::string::StrSliceExecFns;
use vstd::string::StringExecFns;
use crate::models::{AccountId, DropId};

verus! {

// A drop id is `{creator}||{sequence}`: the creator's account id, the
// two-character delimiter, and the decimal sequence number. The creator can
// be recovered from the id alone, which is what authorizes deletion and
// names the funding source of a token drop.

/// The two-character delimiter `||` starts at position `i` of `s`.
pub open spec fn delim_at(s: Seq<char>, i: int) -> bool {
    0 <= i && i + 2 <= s.len() && s[i] == '|' && s[i + 1] == '|'
}

/// A character admissible in an account id: lower-case letters, digits,
/// and the separators `-`, `_`, `.`. The delimiter character `|` is not
/// admissible, which is what makes drop ids parseable.
pub open spec fn valid_account_char(c: char) -> bool {
    ('a' <= c && c <= 'z') || ('0' <= c && c <= '9') || c == '-' || c == '_' || c == '.'
}

/// A well-formed account id: between 2 and 64 admissible characters.
pub open spec fn valid_account_id(s: Seq<char>) -> bool {
    2 <= s.len() <= 64 && forall|i: int| 0 <= i < s.len() ==> valid_account_char(#[trigger] s[i])
}

/// The delimiter occurrence at `d` is the one a left-to-right split finds,
/// and nothing after it contains the delimiter: the id splits into exactly
/// two parts at `d`.
pub open spec fn drop_id_parts(s: Seq<char>, d: int) -> bool {
    &&& delim_at(s, d)
    &&& forall|j: int| 0 <= j < d ==> !delim_at(s, j)
    &&& forall|j: int| d + 2 <= j ==> !delim_at(s, j)
}

/// The id splits into exactly two parts and the first is a well-formed
/// account id.
pub open spec fn is_wf_drop_id(s: Seq<char>) -> bool {
    exists|d: int| #[trigger] drop_id_parts(s, d) && valid_account_id(s.subrange(0, d))
}

/// The creator embedded in a well-formed drop id.
pub open spec fn drop_id_creator(s: Seq<char>) -> Seq<char> {
    s.subrange(
        0,
        choose|d: int| #[trigger] drop_id_parts(s, d) && valid_account_id(s.subrange(0, d)),
    )
}

/// The decimal digit character for `d`.
pub open spec fn dec_digit(d: int) -> char {
    if d == 0 {
        '0'
    } else if d == 1 {
        '1'
    } else if d == 2 {
        '2'
    } else if d == 3 {
        '3'
    } else if d == 4 {
        '4'
    } else if d == 5 {
        '5'
    } else if d == 6 {
        '6'
    } else if d == 7 {
        '7'
    } else if d == 8 {
        '8'
    } else {
        '9'
    }
}

/// The decimal numeral of `n`, most significant digit first.
pub open spec fn dec_digits(n: nat) -> Seq<char>
    decreases n,
{
    if n < 10 {
        seq![dec_digit(n as int)]
    } else {
        dec_digits(n / 10) + seq![dec_digit((n % 10) as int)]
    }
}

/// The text of a drop id formed from a creator and a sequence number.
pub open spec fn drop_id_seq(creator: Seq<char>, n: nat) -> Seq<char> {
    creator + seq!['|', '|'] + dec_digits(n)
}

/// Every character of a decimal numeral is a digit, and the numeral is
/// nonempty.
pub proof fn lemma_dec_digits_are_digits(n: nat)
    ensures
        dec_digits(n).len() >= 1,
        forall|i: int|
            0 <= i < dec_digits(n).len() ==> '0' <= #[trigger] dec_digits(n)[i]
                && dec_digits(n)[i] <= '9',
    decreases n,
{
    if n >= 10 {
        lemma_dec_digits_are_digits(n / 10);
    }
}

/// At most one position can split a drop id into exactly two parts.
proof fn lemma_parts_unique(s: Seq<char>, d1: int, d2: int)
    requires
        drop_id_parts(s, d1),
        drop_id_parts(s, d2),
    ensures
        d1 == d2,
{
    if d1 < d2 {
        assert(!delim_at(s, d1));
    }
    if d2 < d1 {
        assert(!delim_at(s, d2));
    }
}

/// Parsing recovers exactly the creator that a drop id was formed from:
/// for every well-formed account id `creator` and every sequence number,
/// the formed id splits into two parts at the end of the creator, and the
/// creator read back from the id is the one written in.
pub proof fn lemma_drop_id_round_trip(creator: Seq<char>, n: nat)
    requires
        valid_account_id(creator),
    ensures
        is_wf_drop_id(drop_id_seq(creator, n)),
        drop_id_creator(drop_id_seq(creator, n)) == creator,
{
    let s = drop_id_seq(creator, n);
    let cl = creator.len() as int;
    lemma_dec_digits_are_digits(n);
    assert forall|j: int| 0 <= j < cl implies !delim_at(s, j) by {
        if delim_at(s, j) {
            if j + 1 < cl {
                assert(valid_account_char(creator[j]));
                assert(s[j] == creator[j]);
            } else {
                // j == cl - 1: the second delimiter character would be the
                // last account character
                assert(valid_account_char(creator[j]));
                assert(s[j] == creator[j]);
            }
        }
    }
    assert(s[cl] == '|');
    assert(s[cl + 1] == '|');
    assert(delim_at(s, cl));
    assert forall|j: int| cl + 2 <= j implies !delim_at(s, j) by {
        if delim_at(s, j) {
            assert(s[j] == dec_digits(n)[j - (cl + 2)]);
            assert('0' <= s[j] && s[j] <= '9');
        }
    }
    assert(drop_id_parts(s, cl));
    assert(s.subrange(0, cl) =~= creator);
    assert(is_wf_drop_id(s));
    let d = choose|d: int| #[trigger] drop_id_parts(s, d) && valid_account_id(s.subrange(0, d));
    lemma_parts_unique(s, d, cl);
}

/// The decimal digit as a one-character string.
fn digit_str(d: u8) -> (r: &'static str)
    requires
        d < 10,
    ensures
        r@ =~= seq![dec_digit(d as int)],
{
    proof {
        reveal_strlit("0");
        reveal_strlit("1");
        reveal_strlit("2");
        reveal_strlit("3");
        reveal_strlit("4");
        reveal_strlit("5");
        reveal_strlit("6");
        reveal_strlit("7");
        reveal_strlit("8");
        reveal_strlit("9");
    }
    match d {
        0 => "0",
        1 => "1",
        2 => "2",
        3 => "3",
        4 => "4",
        5 => "5",
        6 => "6",
        7 => "7",
        8 => "8",
        _ => "9",
    }
}

/// Appends the decimal numeral of `m` to `out`.
fn push_digits(m: u64, out: &mut String)
    ensures
        final(out)@ == old(out)@ + dec_digits(m as nat),
    decreases m,
{
    if m < 10 {
        out.append(digit_str(m as u8));
    } else {
        push_digits(m / 10, out);
        out.append(digit_str((m % 10) as u8));
        proof {
            assert(old(out)@ + dec_digits((m / 10) as nat) + seq![
                dec_digit((m % 10) as int),
            ] =~= old(out)@ + dec_digits(m as nat));
        }
    }
}

/// Appends the decimal numeral of `m` to `out` (wide-counter variant).
fn push_digits_u128(m: u128, out: &mut String)
    ensures
        final(out)@ == old(out)@ + dec_digits(m as nat),
    decreases m,
{
    if m < 10 {
        out.append(digit_str(m as u8));
    } else {
        push_digits_u128(m / 10, out);
        out.append(digit_str((m % 10) as u8));
        proof {
            assert(old(out)@ + dec_digits((m / 10) as nat) + seq![
                dec_digit((m % 10) as int),
            ] =~= old(out)@ + dec_digits(m as nat));
        }
    }
}

/// The decimal numeral of `n` as a string.
pub fn u128_to_string(n: u128) -> (s: String)
    ensures
        s@ == dec_digits(n as nat),
{
    let mut s = String::new();
    push_digits_u128(n, &mut s);
    proof {
        assert(Seq::<char>::empty() + dec_digits(n as nat) =~= dec_digits(n as nat));
    }
    s
}

/// The decimal numeral of `n` as a string.
pub fn u64_to_string(n: u64) -> (s: String)
    ensures
        s@ == dec_digits(n as nat),
{
    let mut s = String::new();
    push_digits(n, &mut s);
    proof {
        assert(Seq::<char>::empty() + dec_digits(n as nat) =~= dec_digits(n as nat));
    }
    s
}

/// Forms the drop id `{creator}||{n}`.
pub fn make_drop_id(creator: &AccountId, n: u64) -> (r: DropId)
    ensures
        r@ == drop_id_seq(creator@, n as nat),
{
    let mut s = creator.clone();
    proof {
        reveal_strlit("||");
    }
    s.append("||");
    push_digits(n, &mut s);
    proof {
        assert("||"@ =~= seq!['|', '|']);
        assert(creator@ + seq!['|', '|'] + dec_digits(n as nat) =~= s@);
    }
    s
}

/// Checks one character for admissibility in an account id.
fn is_valid_account_char(c: char) -> (r: bool)
    ensures
        r == valid_account_char(c),
{
    ('a' <= c && c <= 'z') || ('0' <= c && c <= '9') || c == '-' || c == '_' || c == '.'
}

/// Checks a whole string for well-formedness as an account id.
pub fn is_valid_account_id(s: &AccountId) -> (r: bool)
    ensures
        r == valid_account_id(s@),
{
    let n = s.as_str().unicode_len();
    if n < 2 || n > 64 {
        return false;
    }
    let mut i: usize = 0;
    while i < n
        invariant
            n == s@.len(),
            i <= n,
            forall|j: int| 0 <= j < i ==> valid_account_char(#[trigger] s@[j]),
        decreases n - i,
    {
        if !is_valid_account_char(s.as_str().get_char(i)) {
            return false;
        }
        i = i + 1;
    }
    true
}

/// Splits a drop id into its creator, if the id is well formed: exactly one
/// delimiter split and a well-formed account id before it.
pub fn try_parse_drop_id(drop_id: &DropId) -> (r: Option<AccountId>)
    ensures
        match r {
            Some(creator) => is_wf_drop_id(drop_id@) && creator@ == drop_id_creator(drop_id@),
            None => !is_wf_drop_id(drop_id@),
        },
{
    let s = drop_id.as_str();
    let n = s.unicode_len();
    if n < 2 {
        proof {
            assert forall|d: int| !(drop_id_parts(drop_id@, d) && valid_account_id(
                drop_id@.subrange(0, d),
            )) by {
                assert(!delim_at(drop_id@, d) || d + 2 > n);
            }
        }
        return None;
    }
    // find the first delimiter position
    let mut d: usize = 0;
    let mut found: bool = false;
    while !found && d <= n - 2
        invariant
            s@ == drop_id@,
            n == drop_id@.len(),
            2 <= n,
            d <= n - 1,
            found ==> d + 2 <= n && delim_at(drop_id@, d as int),
            forall|j: int| 0 <= j < d ==> !delim_at(drop_id@, j),
        decreases n - d, (if found { 0int } else { 1int }),
    {
        if s.get_char(d) == '|' && s.get_char(d + 1) == '|' {
            found = true;
        } else {
            d = d + 1;
        }
    }
    if !found {
        proof {
            assert forall|dd: int| !drop_id_parts(drop_id@, dd) by {
                if delim_at(drop_id@, dd) {
                    assert(0 <= dd < d);
                }
            }
        }
        return None;
    }
    // no further delimiter may follow the first one
    let mut j: usize = d + 2;
    while j <= n - 2
        invariant
            s@ == drop_id@,
            n == drop_id@.len(),
            2 <= n,
            d + 2 <= j,
            delim_at(drop_id@, d as int),
            forall|m: int| 0 <= m < d ==> !delim_at(drop_id@, m),
            forall|m: int| d + 2 <= m < j ==> !delim_at(drop_id@, m),
        decreases n - j,
    {
        if s.get_char(j) == '|' && s.get_char(j + 1) == '|' {
            proof {
                assert forall|dd: int| !(drop_id_parts(drop_id@, dd) && valid_account_id(
                    drop_id@.subrange(0, dd),
                )) by {
                    if drop_id_parts(drop_id@, dd) {
                        if dd > d {
                            assert(!delim_at(drop_id@, d as int));
                        }
                        assert(dd == d);
                        assert(!delim_at(drop_id@, j as int));
                    }
                }
            }
            return None;
        }
        j = j + 1;
    }
    proof {
        assert forall|m: int| (d + 2) <= m implies !delim_at(drop_id@, m) by {
            if delim_at(drop_id@, m) {
                assert(m + 2 <= n);
                assert(d + 2 <= m < j);
            }
        }
        assert(drop_id_parts(drop_id@, d as int));
    }
    // the part before the delimiter must be a well-formed account id
    let creator = s.substring_char(0, d).to_owned();
    if !is_valid_account_id(&creator) {
        proof {
            assert forall|dd: int| !(drop_id_parts(drop_id@, dd) && valid_account_id(
                drop_id@.subrange(0, dd),
            )) by {
                if drop_id_parts(drop_id@, dd) {
                    lemma_parts_unique(drop_id@, dd, d as int);
                }
            }
        }
        return None;
    }
    proof {
        assert(is_wf_drop_id(drop_id@));
        let dd = choose|dd: int| #[trigger] drop_id_parts(drop_id@, dd) && valid_account_id(
            drop_id@.subrange(0, dd),
        );
        lemma_parts_unique(drop_id@, dd, d as int);
    }
    Some(creator)
}

/// The creator embedded in a well-formed drop id.
pub fn parse_drop_id(drop_id: &DropId) -> (r: AccountId)
    requires
        is_wf_drop_id(drop_id@),
    ensures
        r@ == drop_id_creator(drop_id@),
{
    match try_parse_drop_id(drop_id) {
        Some(creator) => creator,
        None => vstd::pervasive::unreached(),
    }
}

} // verus!
