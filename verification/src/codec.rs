//! The canonical descriptor codec. A project is serialized to a compact,
//! JSON-compatible record
//! `{"name":...,"layout_id":...,"sequences":[...],"users":[...]}`; strings
//! escape only `"` and `\`, numbers are plain decimals, and a permission is
//! written as a short number list `[tag, scope...]`. Decoding is specified
//! as a mathematical parser, and decoding an encoding provably returns the
//! original project.

use vstd::prelude::*;
use vstd::std_specs::iter::IteratorSpec;

use crate::error::Error;
use crate::permission::Permission;
use crate::project_types::{Project, ProjectView, User, UserView};

verus! {

// ---------------------------------------------------------------------------
// Characters and digits
// ---------------------------------------------------------------------------

/// The decimal digit character for `d` (only the first ten values matter).
pub open spec fn digit_char(d: u32) -> char {
    if d == 0 {
        '0'
    } else if d == 1 {
        '1'
    } else if d == 2 {
        '2'
    } else if d == 3 {
        '3'
    } else if d == 4 {
        '4'
    } else if d == 5 {
        '5'
    } else if d == 6 {
        '6'
    } else if d == 7 {
        '7'
    } else if d == 8 {
        '8'
    } else {
        '9'
    }
}

/// The value of a decimal digit character; ten for anything else.
pub open spec fn digit_val(c: char) -> u32 {
    if c == '0' {
        0
    } else if c == '1' {
        1
    } else if c == '2' {
        2
    } else if c == '3' {
        3
    } else if c == '4' {
        4
    } else if c == '5' {
        5
    } else if c == '6' {
        6
    } else if c == '7' {
        7
    } else if c == '8' {
        8
    } else if c == '9' {
        9
    } else {
        10
    }
}

/// Whether `c` is a decimal digit.
pub open spec fn is_digit(c: char) -> bool {
    digit_val(c) < 10
}

/// A natural number in decimal, most significant digit first.
pub open spec fn enc_nat(n: nat) -> Seq<char>
    decreases n,
{
    if n < 10 {
        seq![digit_char(n as u32)]
    } else {
        enc_nat(n / 10) + seq![digit_char((n % 10) as u32)]
    }
}

// ---------------------------------------------------------------------------
// Spec encoders
// ---------------------------------------------------------------------------

/// A string character in escaped form: `"` and `\` get a backslash, the rest
/// stand as they are.
pub open spec fn esc_char(c: char) -> Seq<char> {
    if c == '"' || c == '\\' {
        seq!['\\', c]
    } else {
        seq![c]
    }
}

/// The escaped body of a string.
pub open spec fn esc(s: Seq<char>) -> Seq<char>
    decreases s.len(),
{
    if s.len() == 0 {
        Seq::empty()
    } else {
        esc_char(s[0]) + esc(s.drop_first())
    }
}

/// A string field: the escaped body between double quotes.
pub open spec fn enc_str(s: Seq<char>) -> Seq<char> {
    seq!['"'] + esc(s) + seq!['"']
}

/// A number in decimal, most significant digit first.
pub open spec fn enc_u32(n: u32) -> Seq<char>
    decreases n,
{
    if n < 10 {
        seq![digit_char(n)]
    } else {
        enc_u32(n / 10).push(digit_char(n % 10))
    }
}

/// The comma-separated items of a number list.
pub open spec fn enc_u32_items(s: Seq<u32>) -> Seq<char>
    decreases s.len(),
{
    if s.len() == 0 {
        Seq::empty()
    } else if s.len() == 1 {
        enc_u32(s[0])
    } else {
        enc_u32(s[0]) + seq![','] + enc_u32_items(s.drop_first())
    }
}

/// A number list in brackets.
pub open spec fn enc_u32_list(s: Seq<u32>) -> Seq<char> {
    seq!['['] + enc_u32_items(s) + seq![']']
}

/// A permission as its number form: a tag and its scope fields.
pub open spec fn nums_of_perm(p: Permission) -> Seq<u32> {
    match p {
        Permission::Administrate => seq![0u32],
        Permission::EditSequence(s) => seq![1u32, s],
        Permission::EditSection(s, c) => seq![2u32, s, c],
        Permission::EditSeqSec(c) => seq![3u32, c],
    }
}

/// The permission a number form stands for, if any.
pub open spec fn perm_of_nums(s: Seq<u32>) -> Option<Permission> {
    if s.len() == 1 && s[0] == 0 {
        Some(Permission::Administrate)
    } else if s.len() == 2 && s[0] == 1 {
        Some(Permission::EditSequence(s[1]))
    } else if s.len() == 3 && s[0] == 2 {
        Some(Permission::EditSection(s[1], s[2]))
    } else if s.len() == 2 && s[0] == 3 {
        Some(Permission::EditSeqSec(s[1]))
    } else {
        None
    }
}

/// The comma-separated items of a permission list.
pub open spec fn enc_perm_items(s: Seq<Permission>) -> Seq<char>
    decreases s.len(),
{
    if s.len() == 0 {
        Seq::empty()
    } else if s.len() == 1 {
        enc_u32_list(nums_of_perm(s[0]))
    } else {
        enc_u32_list(nums_of_perm(s[0])) + seq![','] + enc_perm_items(s.drop_first())
    }
}

/// A permission list in brackets.
pub open spec fn enc_perm_list(s: Seq<Permission>) -> Seq<char> {
    seq!['['] + enc_perm_items(s) + seq![']']
}

/// A user record.
pub open spec fn enc_user(u: UserView) -> Seq<char> {
    "{\"name\":"@ + enc_str(u.name) + ",\"public_key\":"@ + enc_str(u.public_key)
        + ",\"permissions\":"@ + enc_perm_list(u.permissions) + seq!['}']
}

/// The comma-separated items of a user list.
pub open spec fn enc_user_items(s: Seq<UserView>) -> Seq<char>
    decreases s.len(),
{
    if s.len() == 0 {
        Seq::empty()
    } else if s.len() == 1 {
        enc_user(s[0])
    } else {
        enc_user(s[0]) + seq![','] + enc_user_items(s.drop_first())
    }
}

/// A user list in brackets.
pub open spec fn enc_user_list(s: Seq<UserView>) -> Seq<char> {
    seq!['['] + enc_user_items(s) + seq![']']
}

/// The whole descriptor record.
pub open spec fn enc_project(p: ProjectView) -> Seq<char> {
    "{\"name\":"@ + enc_str(p.name) + ",\"layout_id\":"@ + enc_u32(p.layout_id)
        + ",\"sequences\":"@ + enc_u32_list(p.sequences) + ",\"users\":"@ + enc_user_list(p.users)
        + seq!['}']
}

// ---------------------------------------------------------------------------
// Spec parsers. Each takes the remaining input and yields the parsed value
// and what is left, or nothing when the input does not start with the
// construct. The explicit length guards before recursive calls keep the
// definitions well-founded; on input the encoders produce they always hold.
// ---------------------------------------------------------------------------

/// Strips `lit` from the front of `s`.
pub open spec fn parse_lit(s: Seq<char>, lit: Seq<char>) -> Option<Seq<char>> {
    if lit.len() <= s.len() && s.subrange(0, lit.len() as int) == lit {
        Some(s.skip(lit.len() as int))
    } else {
        None
    }
}

/// Consumes the body of a string up to its closing quote, undoing escapes.
pub open spec fn parse_str_body(s: Seq<char>) -> Option<(Seq<char>, Seq<char>)>
    decreases s.len(),
{
    if s.len() == 0 {
        None
    } else if s[0] == '"' {
        Some((Seq::empty(), s.drop_first()))
    } else if s[0] == '\\' {
        if s.len() >= 2 {
            match parse_str_body(s.skip(2)) {
                Some((t, r)) => Some((seq![s[1]] + t, r)),
                None => None,
            }
        } else {
            None
        }
    } else {
        match parse_str_body(s.drop_first()) {
            Some((t, r)) => Some((seq![s[0]] + t, r)),
            None => None,
        }
    }
}

/// A quoted string.
pub open spec fn parse_str(s: Seq<char>) -> Option<(Seq<char>, Seq<char>)> {
    if s.len() > 0 && s[0] == '"' {
        parse_str_body(s.drop_first())
    } else {
        None
    }
}

/// Folds every leading digit into `acc`.
pub open spec fn parse_digits(s: Seq<char>, acc: nat) -> (nat, Seq<char>)
    decreases s.len(),
{
    if s.len() > 0 && is_digit(s[0]) {
        parse_digits(s.drop_first(), (acc * 10 + digit_val(s[0])) as nat)
    } else {
        (acc, s)
    }
}

/// A decimal number; one that does not fit a `u32` is refused.
pub open spec fn parse_u32(s: Seq<char>) -> Option<(u32, Seq<char>)> {
    if s.len() > 0 && is_digit(s[0]) {
        let (v, r) = parse_digits(s, 0);
        if v <= u32::MAX as nat {
            Some((v as u32, r))
        } else {
            None
        }
    } else {
        None
    }
}

/// The items of a non-empty number list, up to and including the closing
/// bracket.
pub open spec fn parse_u32_items(s: Seq<char>) -> Option<(Seq<u32>, Seq<char>)>
    decreases s.len(),
{
    match parse_u32(s) {
        None => None,
        Some((v, r)) => if r.len() < s.len() {
            if r.len() > 0 && r[0] == ',' {
                match parse_u32_items(r.drop_first()) {
                    Some((vs, r2)) => Some((seq![v] + vs, r2)),
                    None => None,
                }
            } else if r.len() > 0 && r[0] == ']' {
                Some((seq![v], r.drop_first()))
            } else {
                None
            }
        } else {
            None
        },
    }
}

/// A bracketed number list.
pub open spec fn parse_u32_list(s: Seq<char>) -> Option<(Seq<u32>, Seq<char>)> {
    if s.len() >= 2 && s[0] == '[' {
        if s[1] == ']' {
            Some((Seq::empty(), s.skip(2)))
        } else {
            parse_u32_items(s.drop_first())
        }
    } else {
        None
    }
}

/// A permission: a number list naming a valid tag and scope.
pub open spec fn parse_perm(s: Seq<char>) -> Option<(Permission, Seq<char>)> {
    match parse_u32_list(s) {
        None => None,
        Some((ns, r)) => match perm_of_nums(ns) {
            Some(p) => Some((p, r)),
            None => None,
        },
    }
}

/// The items of a non-empty permission list, including the closing bracket.
pub open spec fn parse_perm_items(s: Seq<char>) -> Option<(Seq<Permission>, Seq<char>)>
    decreases s.len(),
{
    match parse_perm(s) {
        None => None,
        Some((p, r)) => if r.len() < s.len() {
            if r.len() > 0 && r[0] == ',' {
                match parse_perm_items(r.drop_first()) {
                    Some((ps, r2)) => Some((seq![p] + ps, r2)),
                    None => None,
                }
            } else if r.len() > 0 && r[0] == ']' {
                Some((seq![p], r.drop_first()))
            } else {
                None
            }
        } else {
            None
        },
    }
}

/// A bracketed permission list.
pub open spec fn parse_perm_list(s: Seq<char>) -> Option<(Seq<Permission>, Seq<char>)> {
    if s.len() >= 2 && s[0] == '[' {
        if s[1] == ']' {
            Some((Seq::empty(), s.skip(2)))
        } else {
            parse_perm_items(s.drop_first())
        }
    } else {
        None
    }
}

/// A user record.
pub open spec fn parse_user(s: Seq<char>) -> Option<(UserView, Seq<char>)> {
    match parse_lit(s, "{\"name\":"@) {
        None => None,
        Some(s1) => match parse_str(s1) {
            None => None,
            Some((name, s2)) => match parse_lit(s2, ",\"public_key\":"@) {
                None => None,
                Some(s3) => match parse_str(s3) {
                    None => None,
                    Some((key, s4)) => match parse_lit(s4, ",\"permissions\":"@) {
                        None => None,
                        Some(s5) => match parse_perm_list(s5) {
                            None => None,
                            Some((perms, s6)) => match parse_lit(s6, seq!['}']) {
                                None => None,
                                Some(s7) => Some(
                                    (
                                        UserView {
                                            name: name,
                                            public_key: key,
                                            permissions: perms,
                                        },
                                        s7,
                                    ),
                                ),
                            },
                        },
                    },
                },
            },
        },
    }
}

/// The items of a non-empty user list, including the closing bracket.
pub open spec fn parse_user_items(s: Seq<char>) -> Option<(Seq<UserView>, Seq<char>)>
    decreases s.len(),
{
    match parse_user(s) {
        None => None,
        Some((u, r)) => if r.len() < s.len() {
            if r.len() > 0 && r[0] == ',' {
                match parse_user_items(r.drop_first()) {
                    Some((us, r2)) => Some((seq![u] + us, r2)),
                    None => None,
                }
            } else if r.len() > 0 && r[0] == ']' {
                Some((seq![u], r.drop_first()))
            } else {
                None
            }
        } else {
            None
        },
    }
}

/// A bracketed user list.
pub open spec fn parse_user_list(s: Seq<char>) -> Option<(Seq<UserView>, Seq<char>)> {
    if s.len() >= 2 && s[0] == '[' {
        if s[1] == ']' {
            Some((Seq::empty(), s.skip(2)))
        } else {
            parse_user_items(s.drop_first())
        }
    } else {
        None
    }
}

/// The whole descriptor record.
pub open spec fn parse_project(s: Seq<char>) -> Option<(ProjectView, Seq<char>)> {
    match parse_lit(s, "{\"name\":"@) {
        None => None,
        Some(s1) => match parse_str(s1) {
            None => None,
            Some((name, s2)) => match parse_lit(s2, ",\"layout_id\":"@) {
                None => None,
                Some(s3) => match parse_u32(s3) {
                    None => None,
                    Some((layout_id, s4)) => match parse_lit(s4, ",\"sequences\":"@) {
                        None => None,
                        Some(s5) => match parse_u32_list(s5) {
                            None => None,
                            Some((sequences, s6)) => match parse_lit(s6, ",\"users\":"@) {
                                None => None,
                                Some(s7) => match parse_user_list(s7) {
                                    None => None,
                                    Some((users, s8)) => match parse_lit(s8, seq!['}']) {
                                        None => None,
                                        Some(s9) => Some(
                                            (
                                                ProjectView {
                                                    name: name,
                                                    layout_id: layout_id,
                                                    sequences: sequences,
                                                    users: users,
                                                },
                                                s9,
                                            ),
                                        ),
                                    },
                                },
                            },
                        },
                    },
                },
            },
        },
    }
}

// ---------------------------------------------------------------------------
// Completeness: parsing what the encoders produced yields the original
// value, whatever follows it.
// ---------------------------------------------------------------------------

/// Stripping a literal off itself and a remainder leaves the remainder.
proof fn lemma_parse_lit(lit: Seq<char>, rest: Seq<char>)
    ensures
        parse_lit(lit + rest, lit) == Some(rest),
{
    let s = lit + rest;
    assert(s.subrange(0, lit.len() as int) =~= lit);
    assert(s.skip(lit.len() as int) =~= rest);
}

/// Undoing the escapes of a string body recovers it and stops at the quote.
proof fn lemma_parse_esc(x: Seq<char>, rest: Seq<char>)
    ensures
        parse_str_body(esc(x) + seq!['"'] + rest) == Some((x, rest)),
    decreases x.len(),
{
    let s = esc(x) + seq!['"'] + rest;
    if x.len() == 0 {
        assert(esc(x) =~= Seq::<char>::empty());
        assert(s =~= seq!['"'] + rest);
        assert(s[0] == '"');
        assert(s.drop_first() =~= rest);
    } else {
        let x1 = x.drop_first();
        lemma_parse_esc(x1, rest);
        let s1 = esc(x1) + seq!['"'] + rest;
        if x[0] == '"' || x[0] == '\\' {
            assert(esc_char(x[0]) =~= seq!['\\', x[0]]);
            assert(s =~= seq!['\\', x[0]] + s1);
            assert(s[0] == '\\' && s[1] == x[0] && s.len() >= 2);
            assert(s.skip(2) =~= s1);
            assert(parse_str_body(s) == Some((seq![x[0]] + x1, rest)));
            assert(seq![x[0]] + x1 =~= x);
        } else {
            assert(esc_char(x[0]) =~= seq![x[0]]);
            assert(s =~= seq![x[0]] + s1);
            assert(s[0] == x[0]);
            assert(s.drop_first() =~= s1);
            assert(parse_str_body(s) == Some((seq![x[0]] + x1, rest)));
            assert(seq![x[0]] + x1 =~= x);
        }
    }
}

/// Parsing an encoded string field recovers it.
proof fn lemma_parse_str(x: Seq<char>, rest: Seq<char>)
    ensures
        parse_str(enc_str(x) + rest) == Some((x, rest)),
{
    let s = enc_str(x) + rest;
    assert(s[0] == '"');
    assert(s.drop_first() =~= esc(x) + seq!['"'] + rest);
    lemma_parse_esc(x, rest);
}

/// `acc` with the decimal digits of `n` appended to it.
pub open spec fn shift_digits(acc: nat, n: u32) -> nat
    decreases n,
{
    if n < 10 {
        (acc * 10 + n) as nat
    } else {
        (shift_digits(acc, n / 10) * 10 + (n % 10)) as nat
    }
}

/// With nothing in front, the appended digits read back as the number.
proof fn lemma_shift_digits_zero(n: u32)
    ensures
        shift_digits(0, n) == n as nat,
    decreases n,
{
    if n >= 10 {
        lemma_shift_digits_zero(n / 10);
    }
}

/// The encoding of `n` is non-empty and starts with a digit.
proof fn lemma_enc_u32_shape(n: u32)
    ensures
        enc_u32(n).len() >= 1,
        is_digit(enc_u32(n)[0]),
    decreases n,
{
    if n >= 10 {
        lemma_enc_u32_shape(n / 10);
    }
}

/// Folding the encoded digits of `n` into `acc` shifts them onto it.
proof fn lemma_parse_digits_enc(n: u32, rest: Seq<char>, acc: nat)
    ensures
        parse_digits(enc_u32(n) + rest, acc) == parse_digits(rest, shift_digits(acc, n)),
    decreases n,
{
    let s = enc_u32(n) + rest;
    if n < 10 {
        assert(s =~= seq![digit_char(n)] + rest);
        assert(s[0] == digit_char(n));
        assert(is_digit(s[0]) && digit_val(s[0]) == n);
        assert(s.drop_first() =~= rest);
    } else {
        let q = n / 10;
        let d = digit_char(n % 10);
        assert(enc_u32(n) =~= enc_u32(q) + seq![d]);
        assert(s =~= enc_u32(q) + (seq![d] + rest));
        lemma_parse_digits_enc(q, seq![d] + rest, acc);
        let mid = seq![d] + rest;
        assert(mid[0] == d);
        assert(is_digit(d) && digit_val(d) == n % 10);
        assert(mid.drop_first() =~= rest);
        assert(parse_digits(mid, shift_digits(acc, q)) == parse_digits(
            rest,
            (shift_digits(acc, q) * 10 + (n % 10)) as nat,
        ));
    }
}

/// Parsing an encoded number recovers it, when what follows is not a digit.
proof fn lemma_parse_u32(n: u32, rest: Seq<char>)
    requires
        rest.len() == 0 || !is_digit(rest[0]),
    ensures
        parse_u32(enc_u32(n) + rest) == Some((n, rest)),
{
    let s = enc_u32(n) + rest;
    lemma_enc_u32_shape(n);
    assert(s[0] == enc_u32(n)[0]);
    lemma_parse_digits_enc(n, rest, 0);
    lemma_shift_digits_zero(n);
    assert(parse_digits(rest, n as nat) == (n as nat, rest));
}

/// Parsing encoded number-list items recovers them up to the bracket.
proof fn lemma_parse_u32_items(vs: Seq<u32>, rest: Seq<char>)
    requires
        vs.len() > 0,
    ensures
        parse_u32_items(enc_u32_items(vs) + seq![']'] + rest) == Some((vs, rest)),
    decreases vs.len(),
{
    let s = enc_u32_items(vs) + seq![']'] + rest;
    lemma_enc_u32_shape(vs[0]);
    if vs.len() == 1 {
        let close = seq![']'] + rest;
        assert(s =~= enc_u32(vs[0]) + close);
        assert(close[0] == ']');
        lemma_parse_u32(vs[0], close);
        assert(close.len() < s.len());
        assert(close.drop_first() =~= rest);
        assert(parse_u32_items(s) == Some((seq![vs[0]], rest)));
        assert(seq![vs[0]] =~= vs);
    } else {
        let tail = vs.drop_first();
        let after = seq![','] + enc_u32_items(tail) + seq![']'] + rest;
        assert(s =~= enc_u32(vs[0]) + after);
        assert(after[0] == ',');
        lemma_parse_u32(vs[0], after);
        assert(after.len() < s.len());
        assert(after.drop_first() =~= enc_u32_items(tail) + seq![']'] + rest);
        lemma_parse_u32_items(tail, rest);
        assert(parse_u32_items(s) == Some((seq![vs[0]] + tail, rest)));
        assert(seq![vs[0]] + tail =~= vs);
    }
}

/// Parsing an encoded number list recovers it.
proof fn lemma_parse_u32_list(vs: Seq<u32>, rest: Seq<char>)
    ensures
        parse_u32_list(enc_u32_list(vs) + rest) == Some((vs, rest)),
{
    let s = enc_u32_list(vs) + rest;
    assert(s[0] == '[');
    if vs.len() == 0 {
        assert(enc_u32_items(vs) =~= Seq::<char>::empty());
        assert(s =~= seq!['[', ']'] + rest);
        assert(s[1] == ']');
        assert(s.skip(2) =~= rest);
        assert(vs =~= Seq::<u32>::empty());
    } else {
        lemma_enc_u32_shape(vs[0]);
        assert(enc_u32_items(vs)[0] == enc_u32(vs[0])[0]);
        assert(s[1] == enc_u32_items(vs)[0]);
        assert(!is_digit(']'));
        assert(s[1] != ']');
        assert(s.len() >= 2);
        assert(s.drop_first() =~= enc_u32_items(vs) + seq![']'] + rest);
        lemma_parse_u32_items(vs, rest);
    }
}

/// A permission survives the trip through its number form.
proof fn lemma_perm_nums(p: Permission)
    ensures
        perm_of_nums(nums_of_perm(p)) == Some(p),
{
}

/// Parsing an encoded permission recovers it.
proof fn lemma_parse_perm(p: Permission, rest: Seq<char>)
    ensures
        parse_perm(enc_u32_list(nums_of_perm(p)) + rest) == Some((p, rest)),
{
    lemma_parse_u32_list(nums_of_perm(p), rest);
    lemma_perm_nums(p);
}

/// Parsing encoded permission-list items recovers them up to the bracket.
proof fn lemma_parse_perm_items(ps: Seq<Permission>, rest: Seq<char>)
    requires
        ps.len() > 0,
    ensures
        parse_perm_items(enc_perm_items(ps) + seq![']'] + rest) == Some((ps, rest)),
    decreases ps.len(),
{
    let s = enc_perm_items(ps) + seq![']'] + rest;
    if ps.len() == 1 {
        let close = seq![']'] + rest;
        assert(s =~= enc_u32_list(nums_of_perm(ps[0])) + close);
        assert(close[0] == ']');
        lemma_parse_perm(ps[0], close);
        assert(close.len() < s.len());
        assert(close.drop_first() =~= rest);
        assert(parse_perm_items(s) == Some((seq![ps[0]], rest)));
        assert(seq![ps[0]] =~= ps);
    } else {
        let tail = ps.drop_first();
        let after = seq![','] + enc_perm_items(tail) + seq![']'] + rest;
        assert(s =~= enc_u32_list(nums_of_perm(ps[0])) + after);
        assert(after[0] == ',');
        lemma_parse_perm(ps[0], after);
        assert(after.len() < s.len());
        assert(after.drop_first() =~= enc_perm_items(tail) + seq![']'] + rest);
        lemma_parse_perm_items(tail, rest);
        assert(parse_perm_items(s) == Some((seq![ps[0]] + tail, rest)));
        assert(seq![ps[0]] + tail =~= ps);
    }
}

/// Parsing an encoded permission list recovers it.
proof fn lemma_parse_perm_list(ps: Seq<Permission>, rest: Seq<char>)
    ensures
        parse_perm_list(enc_perm_list(ps) + rest) == Some((ps, rest)),
{
    let s = enc_perm_list(ps) + rest;
    assert(s[0] == '[');
    if ps.len() == 0 {
        assert(enc_perm_items(ps) =~= Seq::<char>::empty());
        assert(s =~= seq!['[', ']'] + rest);
        assert(s[1] == ']');
        assert(s.skip(2) =~= rest);
        assert(ps =~= Seq::<Permission>::empty());
    } else {
        assert(enc_perm_items(ps)[0] == enc_u32_list(nums_of_perm(ps[0]))[0]);
        assert(s[1] == '[');
        assert(s[1] != ']');
        assert(s.len() >= 2);
        assert(s.drop_first() =~= enc_perm_items(ps) + seq![']'] + rest);
        lemma_parse_perm_items(ps, rest);
    }
}

/// Parsing an encoded user record recovers it.
proof fn lemma_parse_user(u: UserView, rest: Seq<char>)
    ensures
        parse_user(enc_user(u) + rest) == Some((u, rest)),
{
    let s = enc_user(u) + rest;
    let r1 = enc_str(u.name) + ",\"public_key\":"@ + enc_str(u.public_key)
        + ",\"permissions\":"@ + enc_perm_list(u.permissions) + seq!['}'] + rest;
    assert(s =~= "{\"name\":"@ + r1);
    lemma_parse_lit("{\"name\":"@, r1);
    let r2 = ",\"public_key\":"@ + enc_str(u.public_key) + ",\"permissions\":"@ + enc_perm_list(
        u.permissions,
    ) + seq!['}'] + rest;
    assert(r1 =~= enc_str(u.name) + r2);
    lemma_parse_str(u.name, r2);
    let r3 = enc_str(u.public_key) + ",\"permissions\":"@ + enc_perm_list(u.permissions)
        + seq!['}'] + rest;
    assert(r2 =~= ",\"public_key\":"@ + r3);
    lemma_parse_lit(",\"public_key\":"@, r3);
    let r4 = ",\"permissions\":"@ + enc_perm_list(u.permissions) + seq!['}'] + rest;
    assert(r3 =~= enc_str(u.public_key) + r4);
    lemma_parse_str(u.public_key, r4);
    let r5 = enc_perm_list(u.permissions) + seq!['}'] + rest;
    assert(r4 =~= ",\"permissions\":"@ + r5);
    lemma_parse_lit(",\"permissions\":"@, r5);
    let r6 = seq!['}'] + rest;
    assert(r5 =~= enc_perm_list(u.permissions) + r6);
    lemma_parse_perm_list(u.permissions, r6);
    assert(r6 =~= seq!['}'] + rest);
    lemma_parse_lit(seq!['}'], rest);
    assert(parse_user(s) == Some(
        (UserView { name: u.name, public_key: u.public_key, permissions: u.permissions }, rest),
    ));
    assert((UserView { name: u.name, public_key: u.public_key, permissions: u.permissions })
        == u);
}

/// The encoding of a user record is non-empty and starts with a brace.
proof fn lemma_enc_user_shape(u: UserView)
    ensures
        enc_user(u).len() >= 1,
        enc_user(u)[0] == '{',
{
    reveal_strlit("{\"name\":");
    assert("{\"name\":"@.len() == 8);
    assert("{\"name\":"@[0] == '{');
    assert(enc_user(u)[0] == "{\"name\":"@[0]);
}

/// Parsing encoded user-list items recovers them up to the bracket.
proof fn lemma_parse_user_items(us: Seq<UserView>, rest: Seq<char>)
    requires
        us.len() > 0,
    ensures
        parse_user_items(enc_user_items(us) + seq![']'] + rest) == Some((us, rest)),
    decreases us.len(),
{
    let s = enc_user_items(us) + seq![']'] + rest;
    lemma_enc_user_shape(us[0]);
    if us.len() == 1 {
        let close = seq![']'] + rest;
        assert(s =~= enc_user(us[0]) + close);
        assert(close[0] == ']');
        lemma_parse_user(us[0], close);
        assert(close.len() < s.len());
        assert(close.drop_first() =~= rest);
        assert(parse_user_items(s) == Some((seq![us[0]], rest)));
        assert(seq![us[0]] =~= us);
    } else {
        let tail = us.drop_first();
        let after = seq![','] + enc_user_items(tail) + seq![']'] + rest;
        assert(s =~= enc_user(us[0]) + after);
        assert(after[0] == ',');
        lemma_parse_user(us[0], after);
        assert(after.len() < s.len());
        assert(after.drop_first() =~= enc_user_items(tail) + seq![']'] + rest);
        lemma_parse_user_items(tail, rest);
        assert(parse_user_items(s) == Some((seq![us[0]] + tail, rest)));
        assert(seq![us[0]] + tail =~= us);
    }
}

/// Parsing an encoded user list recovers it.
proof fn lemma_parse_user_list(us: Seq<UserView>, rest: Seq<char>)
    ensures
        parse_user_list(enc_user_list(us) + rest) == Some((us, rest)),
{
    let s = enc_user_list(us) + rest;
    assert(s[0] == '[');
    if us.len() == 0 {
        assert(enc_user_items(us) =~= Seq::<char>::empty());
        assert(s =~= seq!['[', ']'] + rest);
        assert(s[1] == ']');
        assert(s.skip(2) =~= rest);
        assert(us =~= Seq::<UserView>::empty());
    } else {
        lemma_enc_user_shape(us[0]);
        assert(enc_user_items(us)[0] == enc_user(us[0])[0]);
        assert(s[1] == '{');
        assert(s[1] != ']');
        assert(s.len() >= 2);
        assert(s.drop_first() =~= enc_user_items(us) + seq![']'] + rest);
        lemma_parse_user_items(us, rest);
    }
}

/// Parsing an encoded project record recovers it.
#[verifier::rlimit(100)]
#[verifier::spinoff_prover]
proof fn lemma_parse_project(p: ProjectView, rest: Seq<char>)
    ensures
        parse_project(enc_project(p) + rest) == Some((p, rest)),
{
    let s = enc_project(p) + rest;
    let r1 = enc_str(p.name) + ",\"layout_id\":"@ + enc_u32(p.layout_id) + ",\"sequences\":"@
        + enc_u32_list(p.sequences) + ",\"users\":"@ + enc_user_list(p.users) + seq!['}'] + rest;
    assert(s =~= "{\"name\":"@ + r1);
    lemma_parse_lit("{\"name\":"@, r1);
    let r2 = ",\"layout_id\":"@ + enc_u32(p.layout_id) + ",\"sequences\":"@ + enc_u32_list(
        p.sequences,
    ) + ",\"users\":"@ + enc_user_list(p.users) + seq!['}'] + rest;
    assert(r1 =~= enc_str(p.name) + r2);
    lemma_parse_str(p.name, r2);
    let r3 = enc_u32(p.layout_id) + ",\"sequences\":"@ + enc_u32_list(p.sequences) + ",\"users\":"@
        + enc_user_list(p.users) + seq!['}'] + rest;
    assert(r2 =~= ",\"layout_id\":"@ + r3);
    lemma_parse_lit(",\"layout_id\":"@, r3);
    let r4 = ",\"sequences\":"@ + enc_u32_list(p.sequences) + ",\"users\":"@ + enc_user_list(
        p.users,
    ) + seq!['}'] + rest;
    assert(r3 =~= enc_u32(p.layout_id) + r4);
    reveal_strlit(",\"sequences\":");
    assert(r4[0] == ',');
    assert(!is_digit(','));
    lemma_parse_u32(p.layout_id, r4);
    let r5 = enc_u32_list(p.sequences) + ",\"users\":"@ + enc_user_list(p.users) + seq!['}']
        + rest;
    assert(r4 =~= ",\"sequences\":"@ + r5);
    lemma_parse_lit(",\"sequences\":"@, r5);
    let r6 = ",\"users\":"@ + enc_user_list(p.users) + seq!['}'] + rest;
    assert(r5 =~= enc_u32_list(p.sequences) + r6);
    lemma_parse_u32_list(p.sequences, r6);
    let r7 = enc_user_list(p.users) + seq!['}'] + rest;
    assert(r6 =~= ",\"users\":"@ + r7);
    lemma_parse_lit(",\"users\":"@, r7);
    let r8 = seq!['}'] + rest;
    assert(r7 =~= enc_user_list(p.users) + r8);
    lemma_parse_user_list(p.users, r8);
    lemma_parse_lit(seq!['}'], rest);
    assert(r8 =~= seq!['}'] + rest);
    assert(parse_project(s) == Some(
        (
            ProjectView {
                name: p.name,
                layout_id: p.layout_id,
                sequences: p.sequences,
                users: p.users,
            },
            rest,
        ),
    ));
    assert((ProjectView {
        name: p.name,
        layout_id: p.layout_id,
        sequences: p.sequences,
        users: p.users,
    }) == p);
}

/// The round trip: decoding the canonical encoding of any project yields
/// exactly that project.
pub proof fn lemma_decode_encode(p: ProjectView)
    ensures
        spec_decode(enc_project(p)) == Some(p),
{
    lemma_parse_project(p, Seq::empty());
    assert(enc_project(p) + Seq::<char>::empty() =~= enc_project(p));
}

/// What a descriptor text denotes: the project it is the complete canonical
/// encoding of, if any.
pub open spec fn spec_decode(s: Seq<char>) -> Option<ProjectView> {
    match parse_project(s) {
        Some((p, r)) => if r.len() == 0 {
            Some(p)
        } else {
            None
        },
        None => None,
    }
}

// ---------------------------------------------------------------------------
// Executable encoder
// ---------------------------------------------------------------------------

/// Relies on std's `FromIterator for String`: the string holding exactly
/// these characters.
#[verifier::external_body]
fn chars_to_string(v: &Vec<char>) -> (r: String)
    ensures
        r@ == v@,
{
    v.iter().copied().collect()
}

/// The characters of a string slice, in order.
fn str_chars(s: &str) -> (r: Vec<char>)
    ensures
        r@ == s@,
{
    broadcast use vstd::string::next_postcondition;
    broadcast use vstd::string::axiom_spec_iter;

    let mut it = s.chars();
    let mut r: Vec<char> = Vec::new();
    loop
        invariant
            r@ + it.remaining() == s@,
            it.obeys_prophetic_iter_laws(),
            it.decrease() is Some,
        decreases it.decrease()->0,
    {
        match it.next() {
            Some(c) => {
                r.push(c);
                proof {
                    assert(r@ + it.remaining() =~= s@);
                }
            },
            None => {
                proof {
                    assert(r@ =~= s@);
                }
                return r;
            },
        }
    }
}

/// Appends the characters of `lit` to `out`.
fn push_lit(out: &mut Vec<char>, lit: &str)
    ensures
        final(out)@ == old(out)@ + lit@,
{
    let cs = str_chars(lit);
    let ghost start = out@;
    let mut i: usize = 0;
    while i < cs.len()
        invariant
            0 <= i <= cs@.len(),
            cs@ == lit@,
            out@ == start + cs@.subrange(0, i as int),
        decreases cs@.len() - i,
    {
        out.push(cs[i]);
        proof {
            assert(out@ =~= start + cs@.subrange(0, i + 1));
        }
        i += 1;
    }
    proof {
        assert(out@ =~= start + lit@);
    }
}

/// The decimal digit character for `d`.
fn digit_char_of(d: u32) -> (r: char)
    requires
        d < 10,
    ensures
        r == digit_char(d),
{
    if d == 0 {
        '0'
    } else if d == 1 {
        '1'
    } else if d == 2 {
        '2'
    } else if d == 3 {
        '3'
    } else if d == 4 {
        '4'
    } else if d == 5 {
        '5'
    } else if d == 6 {
        '6'
    } else if d == 7 {
        '7'
    } else if d == 8 {
        '8'
    } else {
        '9'
    }
}

/// Appends the decimal encoding of `n` to `out`.
fn push_u32(out: &mut Vec<char>, n: u32)
    ensures
        final(out)@ == old(out)@ + enc_u32(n),
    decreases n,
{
    if n < 10 {
        out.push(digit_char_of(n));
        proof {
            assert(out@ =~= old(out)@ + seq![digit_char(n)]);
        }
    } else {
        push_u32(out, n / 10);
        out.push(digit_char_of(n % 10));
        proof {
            assert(out@ =~= old(out)@ + enc_u32(n / 10).push(digit_char(n % 10)));
        }
    }
}

/// Appends the decimal encoding of `n` to `out`.
fn push_u64(out: &mut Vec<char>, n: u64)
    ensures
        final(out)@ == old(out)@ + enc_nat(n as nat),
    decreases n,
{
    if n < 10 {
        out.push(digit_char_of(n as u32));
        proof {
            assert(out@ =~= old(out)@ + seq![digit_char(n as u32)]);
        }
    } else {
        push_u64(out, n / 10);
        out.push(digit_char_of((n % 10) as u32));
        proof {
            assert(out@ =~= old(out)@ + (enc_nat((n as nat) / 10) + seq![
                digit_char((n % 10) as u32),
            ]));
        }
    }
}

/// The decimal text of `n`.
pub fn u64_to_string(n: u64) -> (r: String)
    ensures
        r@ == enc_nat(n as nat),
{
    let mut out: Vec<char> = Vec::new();
    push_u64(&mut out, n);
    proof {
        assert(out@ =~= enc_nat(n as nat));
    }
    chars_to_string(&out)
}

/// Escaping distributes over concatenation.
proof fn lemma_esc_concat(a: Seq<char>, b: Seq<char>)
    ensures
        esc(a + b) == esc(a) + esc(b),
    decreases a.len(),
{
    if a.len() == 0 {
        assert(a + b =~= b);
        assert(esc(a) =~= Seq::<char>::empty());
        assert(esc(a) + esc(b) =~= esc(b));
    } else {
        let s = a + b;
        assert(s.len() > 0 && s[0] == a[0]);
        assert(s.drop_first() =~= a.drop_first() + b);
        lemma_esc_concat(a.drop_first(), b);
        assert(esc(s) =~= esc_char(a[0]) + (esc(a.drop_first()) + esc(b)));
        assert(esc(a) + esc(b) =~= esc_char(a[0]) + (esc(a.drop_first()) + esc(b)));
    }
}

/// Appends the escaped body of `s` to `out`.
fn push_esc(out: &mut Vec<char>, s: &str)
    ensures
        final(out)@ == old(out)@ + esc(s@),
{
    let cs = str_chars(s);
    let ghost start = out@;
    let mut i: usize = 0;
    while i < cs.len()
        invariant
            0 <= i <= cs@.len(),
            cs@ == s@,
            out@ == start + esc(cs@.subrange(0, i as int)),
        decreases cs@.len() - i,
    {
        let c = cs[i];
        if c == '"' || c == '\\' {
            out.push('\\');
        }
        out.push(c);
        proof {
            assert(cs@.subrange(0, i + 1) =~= cs@.subrange(0, i as int) + seq![cs@[i as int]]);
            lemma_esc_concat(cs@.subrange(0, i as int), seq![cs@[i as int]]);
            assert(seq![cs@[i as int]].drop_first() =~= Seq::<char>::empty());
            assert(esc(Seq::<char>::empty()) =~= Seq::<char>::empty());
            assert(esc(seq![cs@[i as int]]) =~= esc_char(cs@[i as int]));
            assert(out@ =~= start + esc(cs@.subrange(0, i + 1)));
        }
        i += 1;
    }
    proof {
        assert(cs@.subrange(0, cs@.len() as int) =~= cs@);
    }
}

/// Appends a quoted, escaped string field to `out`.
fn push_str_field(out: &mut Vec<char>, s: &str)
    ensures
        final(out)@ == old(out)@ + enc_str(s@),
{
    out.push('"');
    push_esc(out, s);
    out.push('"');
    proof {
        assert(out@ =~= old(out)@ + enc_str(s@));
    }
}

/// Appends the items of a number list from index `i` on, with the closing
/// bracket's separators in place.
fn push_u32_items(out: &mut Vec<char>, v: &Vec<u32>, i: usize)
    requires
        i < v@.len(),
    ensures
        final(out)@ == old(out)@ + enc_u32_items(v@.skip(i as int)),
    decreases v@.len() - i,
{
    push_u32(out, v[i]);
    let n = v.len();
    if i + 1 < n {
        out.push(',');
        push_u32_items(out, v, i + 1);
        proof {
            let t = v@.skip(i as int);
            assert(t.drop_first() =~= v@.skip(i + 1));
            assert(out@ =~= old(out)@ + (enc_u32(v@[i as int]) + seq![','] + enc_u32_items(
                v@.skip(i + 1),
            )));
        }
    } else {
        proof {
            let t = v@.skip(i as int);
            assert(t.len() == 1 && t[0] == v@[i as int]);
            assert(out@ =~= old(out)@ + enc_u32_items(t));
        }
    }
}

/// Appends a bracketed number list to `out`.
fn push_u32_list(out: &mut Vec<char>, v: &Vec<u32>)
    ensures
        final(out)@ == old(out)@ + enc_u32_list(v@),
{
    out.push('[');
    if v.len() > 0 {
        push_u32_items(out, v, 0);
        proof {
            assert(v@.skip(0) =~= v@);
        }
    } else {
        proof {
            assert(enc_u32_items(v@) =~= Seq::<char>::empty());
        }
    }
    out.push(']');
    proof {
        assert(out@ =~= old(out)@ + enc_u32_list(v@));
    }
}

/// The number form of a permission.
fn perm_nums(p: &Permission) -> (r: Vec<u32>)
    ensures
        r@ == nums_of_perm(*p),
{
    match p {
        Permission::Administrate => {
            let mut v: Vec<u32> = Vec::new();
            v.push(0);
            proof {
                assert(v@ =~= nums_of_perm(*p));
            }
            v
        },
        Permission::EditSequence(s) => {
            let mut v: Vec<u32> = Vec::new();
            v.push(1);
            v.push(*s);
            proof {
                assert(v@ =~= nums_of_perm(*p));
            }
            v
        },
        Permission::EditSection(s, c) => {
            let mut v: Vec<u32> = Vec::new();
            v.push(2);
            v.push(*s);
            v.push(*c);
            proof {
                assert(v@ =~= nums_of_perm(*p));
            }
            v
        },
        Permission::EditSeqSec(c) => {
            let mut v: Vec<u32> = Vec::new();
            v.push(3);
            v.push(*c);
            proof {
                assert(v@ =~= nums_of_perm(*p));
            }
            v
        },
    }
}

/// Appends the items of a permission list from index `i` on.
fn push_perm_items(out: &mut Vec<char>, v: &Vec<Permission>, i: usize)
    requires
        i < v@.len(),
    ensures
        final(out)@ == old(out)@ + enc_perm_items(v@.skip(i as int)),
    decreases v@.len() - i,
{
    let nums = perm_nums(&v[i]);
    push_u32_list(out, &nums);
    let n = v.len();
    if i + 1 < n {
        out.push(',');
        push_perm_items(out, v, i + 1);
        proof {
            let t = v@.skip(i as int);
            assert(t.drop_first() =~= v@.skip(i + 1));
            assert(out@ =~= old(out)@ + (enc_u32_list(nums_of_perm(v@[i as int])) + seq![',']
                + enc_perm_items(v@.skip(i + 1))));
        }
    } else {
        proof {
            let t = v@.skip(i as int);
            assert(t.len() == 1 && t[0] == v@[i as int]);
            assert(out@ =~= old(out)@ + enc_perm_items(t));
        }
    }
}

/// Appends a bracketed permission list to `out`.
fn push_perm_list(out: &mut Vec<char>, v: &Vec<Permission>)
    ensures
        final(out)@ == old(out)@ + enc_perm_list(v@),
{
    out.push('[');
    if v.len() > 0 {
        push_perm_items(out, v, 0);
        proof {
            assert(v@.skip(0) =~= v@);
        }
    } else {
        proof {
            assert(enc_perm_items(v@) =~= Seq::<char>::empty());
        }
    }
    out.push(']');
    proof {
        assert(out@ =~= old(out)@ + enc_perm_list(v@));
    }
}

/// Appends a user record to `out`.
fn push_user(out: &mut Vec<char>, u: &User)
    ensures
        final(out)@ == old(out)@ + enc_user(u@),
{
    push_lit(out, "{\"name\":");
    push_str_field(out, u.name.as_str());
    push_lit(out, ",\"public_key\":");
    push_str_field(out, u.public_key.as_str());
    push_lit(out, ",\"permissions\":");
    push_perm_list(out, &u.permissions);
    out.push('}');
    proof {
        assert(out@ =~= old(out)@ + enc_user(u@));
    }
}

/// Appends the items of a user list from index `i` on.
fn push_user_items(out: &mut Vec<char>, v: &Vec<User>, i: usize)
    requires
        i < v@.len(),
    ensures
        final(out)@ == old(out)@ + enc_user_items(v@.map_values(|u: User| u@).skip(i as int)),
    decreases v@.len() - i,
{
    let ghost views = v@.map_values(|u: User| u@);
    push_user(out, &v[i]);
    let n = v.len();
    if i + 1 < n {
        out.push(',');
        push_user_items(out, v, i + 1);
        proof {
            let t = views.skip(i as int);
            assert(t.drop_first() =~= views.skip(i + 1));
            assert(t[0] == v@[i as int]@);
            assert(out@ =~= old(out)@ + (enc_user(views[i as int]) + seq![','] + enc_user_items(
                views.skip(i + 1),
            )));
        }
    } else {
        proof {
            let t = views.skip(i as int);
            assert(t.len() == 1 && t[0] == v@[i as int]@);
            assert(out@ =~= old(out)@ + enc_user_items(t));
        }
    }
}

/// Appends a bracketed user list to `out`.
fn push_user_list(out: &mut Vec<char>, v: &Vec<User>)
    ensures
        final(out)@ == old(out)@ + enc_user_list(v@.map_values(|u: User| u@)),
{
    let ghost views = v@.map_values(|u: User| u@);
    out.push('[');
    if v.len() > 0 {
        push_user_items(out, v, 0);
        proof {
            assert(views.skip(0) =~= views);
        }
    } else {
        proof {
            assert(enc_user_items(views) =~= Seq::<char>::empty());
        }
    }
    out.push(']');
    proof {
        assert(out@ =~= old(out)@ + enc_user_list(views));
    }
}

/// Serializes a project to its canonical descriptor text.
pub fn encode_project(p: &Project) -> (r: String)
    ensures
        r@ == enc_project(p@),
{
    let mut out: Vec<char> = Vec::new();
    push_lit(&mut out, "{\"name\":");
    push_str_field(&mut out, p.name.as_str());
    push_lit(&mut out, ",\"layout_id\":");
    push_u32(&mut out, p.layout_id);
    push_lit(&mut out, ",\"sequences\":");
    push_u32_list(&mut out, &p.sequences);
    push_lit(&mut out, ",\"users\":");
    push_user_list(&mut out, &p.users);
    out.push('}');
    proof {
        assert(out@ =~= enc_project(p@));
    }
    chars_to_string(&out)
}

// ---------------------------------------------------------------------------
// Executable decoder: a recursive-descent parser over the characters, each
// step shown equal to the corresponding mathematical parser.
// ---------------------------------------------------------------------------

/// The value of a decimal digit character; ten for anything else.
fn digit_val_of(c: char) -> (r: u32)
    ensures
        r == digit_val(c),
{
    if c == '0' {
        0
    } else if c == '1' {
        1
    } else if c == '2' {
        2
    } else if c == '3' {
        3
    } else if c == '4' {
        4
    } else if c == '5' {
        5
    } else if c == '6' {
        6
    } else if c == '7' {
        7
    } else if c == '8' {
        8
    } else if c == '9' {
        9
    } else {
        10
    }
}

/// Strips `lit` from the input at `pos`.
fn p_lit(v: &Vec<char>, pos: usize, lit: &str) -> (r: Option<usize>)
    requires
        pos <= v@.len(),
    ensures
        match r {
            Some(p2) => pos <= p2 <= v@.len() && parse_lit(v@.skip(pos as int), lit@) == Some(
                v@.skip(p2 as int),
            ) && p2 - pos == lit@.len(),
            None => parse_lit(v@.skip(pos as int), lit@) is None,
        },
{
    let cs = str_chars(lit);
    let len = v.len();
    let ghost s = v@.skip(pos as int);
    if cs.len() > len - pos {
        return None;
    }
    let mut j: usize = 0;
    while j < cs.len()
        invariant
            0 <= j <= cs@.len(),
            cs@ == lit@,
            pos <= v@.len(),
            cs@.len() <= v@.len() - pos,
            s == v@.skip(pos as int),
            forall|k: int| 0 <= k < j ==> s[k] == cs@[k],
        decreases cs@.len() - j,
    {
        let bound = v.len();
        if v[pos + j] != cs[j] {
            proof {
                assert(s[j as int] == v@[pos + j as int]);
                assert(s[j as int] != cs@[j as int]);
                assert(s.subrange(0, lit@.len() as int) != lit@) by {
                    if s.subrange(0, lit@.len() as int) == lit@ {
                        assert(s.subrange(0, lit@.len() as int)[j as int] == s[j as int]);
                    }
                }
            }
            return None;
        }
        proof {
            assert(pos + j < bound);
            assert(s[j as int] == v@[pos + j as int]);
        }
        j += 1;
    }
    proof {
        assert(s.subrange(0, lit@.len() as int) =~= lit@);
        assert(s.skip(lit@.len() as int) =~= v@.skip(pos + lit@.len()));
    }
    Some(pos + cs.len())
}

/// Consumes a string body up to the closing quote, undoing escapes.
fn p_str_body(v: &Vec<char>, pos: usize) -> (r: Option<(Vec<char>, usize)>)
    requires
        pos <= v@.len(),
    ensures
        match r {
            Some((t, p2)) => pos < p2 <= v@.len() && parse_str_body(v@.skip(pos as int)) == Some(
                (t@, v@.skip(p2 as int)),
            ),
            None => parse_str_body(v@.skip(pos as int)) is None,
        },
    decreases v@.len() - pos,
{
    let len = v.len();
    let ghost s = v@.skip(pos as int);
    if pos >= len {
        return None;
    }
    let c = v[pos];
    proof {
        assert(s[0] == v@[pos as int]);
    }
    if c == '"' {
        proof {
            assert(s.drop_first() =~= v@.skip(pos + 1));
        }
        let t: Vec<char> = Vec::new();
        proof {
            assert(t@ =~= Seq::<char>::empty());
        }
        return Some((t, pos + 1));
    }
    if c == '\\' {
        if pos + 1 < len {
            proof {
                assert(s.len() >= 2);
                assert(s[1] == v@[pos + 1]);
                assert(s.skip(2) =~= v@.skip(pos + 2));
            }
            match p_str_body(v, pos + 2) {
                Some((mut t, p2)) => {
                    let ghost t0 = t@;
                    t.insert(0, v[pos + 1]);
                    proof {
                        assert(t@ =~= seq![v@[pos + 1]] + t0);
                    }
                    Some((t, p2))
                },
                None => None,
            }
        } else {
            proof {
                assert(s.len() < 2);
            }
            None
        }
    } else {
        proof {
            assert(s.drop_first() =~= v@.skip(pos + 1));
        }
        match p_str_body(v, pos + 1) {
            Some((mut t, p2)) => {
                let ghost t0 = t@;
                t.insert(0, c);
                proof {
                    assert(t@ =~= seq![v@[pos as int]] + t0);
                }
                Some((t, p2))
            },
            None => None,
        }
    }
}

/// A quoted string at `pos`.
fn p_str(v: &Vec<char>, pos: usize) -> (r: Option<(Vec<char>, usize)>)
    requires
        pos <= v@.len(),
    ensures
        match r {
            Some((t, p2)) => pos < p2 <= v@.len() && parse_str(v@.skip(pos as int)) == Some(
                (t@, v@.skip(p2 as int)),
            ),
            None => parse_str(v@.skip(pos as int)) is None,
        },
{
    let len = v.len();
    let ghost s = v@.skip(pos as int);
    if pos >= len {
        return None;
    }
    proof {
        assert(s[0] == v@[pos as int]);
    }
    if v[pos] != '"' {
        return None;
    }
    proof {
        assert(s.drop_first() =~= v@.skip(pos + 1));
    }
    p_str_body(v, pos + 1)
}

/// A decimal number at `pos` that fits a `u32`.
fn p_u32(v: &Vec<char>, pos: usize) -> (r: Option<(u32, usize)>)
    requires
        pos <= v@.len(),
    ensures
        match r {
            Some((n, p2)) => pos < p2 <= v@.len() && parse_u32(v@.skip(pos as int)) == Some(
                (n, v@.skip(p2 as int)),
            ),
            None => parse_u32(v@.skip(pos as int)) is None,
        },
{
    let len = v.len();
    let ghost s = v@.skip(pos as int);
    if pos >= len {
        return None;
    }
    proof {
        assert(s[0] == v@[pos as int]);
    }
    if digit_val_of(v[pos]) >= 10 {
        return None;
    }
    let mut cur: usize = pos;
    let mut acc: u64 = 0;
    let mut over: bool = false;
    let ghost mut g: nat = 0;
    while cur < len && digit_val_of(v[cur]) < 10
        invariant
            pos <= cur <= len,
            len == v@.len(),
            s == v@.skip(pos as int),
            parse_digits(s, 0) == parse_digits(v@.skip(cur as int), g),
            over <==> g > u32::MAX as nat,
            !over ==> acc as nat == g,
            acc <= u32::MAX as u64,
            cur == pos ==> cur < len && is_digit(v@[cur as int]),
        decreases len - cur,
    {
        let d = digit_val_of(v[cur]);
        proof {
            let t = v@.skip(cur as int);
            assert(t.len() > 0 && t[0] == v@[cur as int]);
            assert(t.drop_first() =~= v@.skip(cur + 1));
            assert(parse_digits(t, g) == parse_digits(v@.skip(cur + 1), (g * 10 + digit_val(
                v@[cur as int],
            )) as nat));
        }
        if !over {
            let a2: u64 = acc * 10 + d as u64;
            if a2 > u32::MAX as u64 {
                over = true;
            } else {
                acc = a2;
            }
        }
        proof {
            g = (g * 10 + digit_val(v@[cur as int])) as nat;
        }
        cur += 1;
    }
    proof {
        let t = v@.skip(cur as int);
        if t.len() > 0 {
            assert(t[0] == v@[cur as int]);
        }
        assert(parse_digits(t, g) == (g, t));
    }
    if over {
        None
    } else {
        Some((acc as u32, cur))
    }
}

/// The items of a non-empty number list at `pos`.
fn p_u32_items(v: &Vec<char>, pos: usize) -> (r: Option<(Vec<u32>, usize)>)
    requires
        pos <= v@.len(),
    ensures
        match r {
            Some((vs, p2)) => pos < p2 <= v@.len() && parse_u32_items(v@.skip(pos as int))
                == Some((vs@, v@.skip(p2 as int))),
            None => parse_u32_items(v@.skip(pos as int)) is None,
        },
    decreases v@.len() - pos,
{
    let ghost s = v@.skip(pos as int);
    match p_u32(v, pos) {
        None => None,
        Some((n, p1)) => {
            let len = v.len();
            let ghost rem = v@.skip(p1 as int);
            proof {
                assert(rem.len() < s.len());
                if rem.len() > 0 {
                    assert(rem[0] == v@[p1 as int]);
                }
            }
            if p1 < len {
                let c = v[p1];
                if c == ',' {
                    proof {
                        assert(rem.drop_first() =~= v@.skip(p1 + 1));
                    }
                    match p_u32_items(v, p1 + 1) {
                        Some((mut vs, p2)) => {
                            let ghost vs0 = vs@;
                            vs.insert(0, n);
                            proof {
                                assert(vs@ =~= seq![n] + vs0);
                            }
                            Some((vs, p2))
                        },
                        None => None,
                    }
                } else if c == ']' {
                    proof {
                        assert(rem.drop_first() =~= v@.skip(p1 + 1));
                    }
                    let mut vs: Vec<u32> = Vec::new();
                    vs.push(n);
                    proof {
                        assert(vs@ =~= seq![n]);
                    }
                    Some((vs, p1 + 1))
                } else {
                    None
                }
            } else {
                None
            }
        },
    }
}

/// A bracketed number list at `pos`.
fn p_u32_list(v: &Vec<char>, pos: usize) -> (r: Option<(Vec<u32>, usize)>)
    requires
        pos <= v@.len(),
    ensures
        match r {
            Some((vs, p2)) => pos < p2 <= v@.len() && parse_u32_list(v@.skip(pos as int)) == Some(
                (vs@, v@.skip(p2 as int)),
            ),
            None => parse_u32_list(v@.skip(pos as int)) is None,
        },
{
    let len = v.len();
    let ghost s = v@.skip(pos as int);
    if len - pos < 2 || v[pos] != '[' {
        proof {
            if s.len() >= 2 {
                assert(s[0] == v@[pos as int]);
            }
        }
        return None;
    }
    proof {
        assert(s[0] == v@[pos as int] && s[1] == v@[pos + 1]);
    }
    if v[pos + 1] == ']' {
        proof {
            assert(s.skip(2) =~= v@.skip(pos + 2));
        }
        let vs: Vec<u32> = Vec::new();
        proof {
            assert(vs@ =~= Seq::<u32>::empty());
        }
        Some((vs, pos + 2))
    } else {
        proof {
            assert(s.drop_first() =~= v@.skip(pos + 1));
        }
        p_u32_items(v, pos + 1)
    }
}

/// The permission a number form stands for, if any.
fn perm_from_nums(ns: &Vec<u32>) -> (r: Option<Permission>)
    ensures
        r == perm_of_nums(ns@),
{
    if ns.len() == 1 && ns[0] == 0 {
        Some(Permission::Administrate)
    } else if ns.len() == 2 && ns[0] == 1 {
        Some(Permission::EditSequence(ns[1]))
    } else if ns.len() == 3 && ns[0] == 2 {
        Some(Permission::EditSection(ns[1], ns[2]))
    } else if ns.len() == 2 && ns[0] == 3 {
        Some(Permission::EditSeqSec(ns[1]))
    } else {
        None
    }
}

/// A permission at `pos`.
fn p_perm(v: &Vec<char>, pos: usize) -> (r: Option<(Permission, usize)>)
    requires
        pos <= v@.len(),
    ensures
        match r {
            Some((p, p2)) => pos < p2 <= v@.len() && parse_perm(v@.skip(pos as int)) == Some(
                (p, v@.skip(p2 as int)),
            ),
            None => parse_perm(v@.skip(pos as int)) is None,
        },
{
    match p_u32_list(v, pos) {
        None => None,
        Some((ns, p1)) => match perm_from_nums(&ns) {
            Some(p) => Some((p, p1)),
            None => None,
        },
    }
}

/// The items of a non-empty permission list at `pos`.
fn p_perm_items(v: &Vec<char>, pos: usize) -> (r: Option<(Vec<Permission>, usize)>)
    requires
        pos <= v@.len(),
    ensures
        match r {
            Some((ps, p2)) => pos < p2 <= v@.len() && parse_perm_items(v@.skip(pos as int))
                == Some((ps@, v@.skip(p2 as int))),
            None => parse_perm_items(v@.skip(pos as int)) is None,
        },
    decreases v@.len() - pos,
{
    let ghost s = v@.skip(pos as int);
    match p_perm(v, pos) {
        None => None,
        Some((p, p1)) => {
            let len = v.len();
            let ghost rem = v@.skip(p1 as int);
            proof {
                assert(rem.len() < s.len());
                if rem.len() > 0 {
                    assert(rem[0] == v@[p1 as int]);
                }
            }
            if p1 < len {
                let c = v[p1];
                if c == ',' {
                    proof {
                        assert(rem.drop_first() =~= v@.skip(p1 + 1));
                    }
                    match p_perm_items(v, p1 + 1) {
                        Some((mut ps, p2)) => {
                            let ghost ps0 = ps@;
                            ps.insert(0, p);
                            proof {
                                assert(ps@ =~= seq![p] + ps0);
                            }
                            Some((ps, p2))
                        },
                        None => None,
                    }
                } else if c == ']' {
                    proof {
                        assert(rem.drop_first() =~= v@.skip(p1 + 1));
                    }
                    let mut ps: Vec<Permission> = Vec::new();
                    ps.push(p);
                    proof {
                        assert(ps@ =~= seq![p]);
                    }
                    Some((ps, p1 + 1))
                } else {
                    None
                }
            } else {
                None
            }
        },
    }
}

/// A bracketed permission list at `pos`.
fn p_perm_list(v: &Vec<char>, pos: usize) -> (r: Option<(Vec<Permission>, usize)>)
    requires
        pos <= v@.len(),
    ensures
        match r {
            Some((ps, p2)) => pos < p2 <= v@.len() && parse_perm_list(v@.skip(pos as int))
                == Some((ps@, v@.skip(p2 as int))),
            None => parse_perm_list(v@.skip(pos as int)) is None,
        },
{
    let len = v.len();
    let ghost s = v@.skip(pos as int);
    if len - pos < 2 || v[pos] != '[' {
        proof {
            if s.len() >= 2 {
                assert(s[0] == v@[pos as int]);
            }
        }
        return None;
    }
    proof {
        assert(s[0] == v@[pos as int] && s[1] == v@[pos + 1]);
    }
    if v[pos + 1] == ']' {
        proof {
            assert(s.skip(2) =~= v@.skip(pos + 2));
        }
        let ps: Vec<Permission> = Vec::new();
        proof {
            assert(ps@ =~= Seq::<Permission>::empty());
        }
        Some((ps, pos + 2))
    } else {
        proof {
            assert(s.drop_first() =~= v@.skip(pos + 1));
        }
        p_perm_items(v, pos + 1)
    }
}

/// A user record at `pos`.
fn p_user(v: &Vec<char>, pos: usize) -> (r: Option<(User, usize)>)
    requires
        pos <= v@.len(),
    ensures
        match r {
            Some((u, p2)) => pos < p2 <= v@.len() && parse_user(v@.skip(pos as int)) == Some(
                (u@, v@.skip(p2 as int)),
            ),
            None => parse_user(v@.skip(pos as int)) is None,
        },
{
    let s1 = match p_lit(v, pos, "{\"name\":") {
        Some(p) => p,
        None => {
            return None;
        },
    };
    let (name_cs, s2) = match p_str(v, s1) {
        Some(x) => x,
        None => {
            return None;
        },
    };
    let s3 = match p_lit(v, s2, ",\"public_key\":") {
        Some(p) => p,
        None => {
            return None;
        },
    };
    let (key_cs, s4) = match p_str(v, s3) {
        Some(x) => x,
        None => {
            return None;
        },
    };
    let s5 = match p_lit(v, s4, ",\"permissions\":") {
        Some(p) => p,
        None => {
            return None;
        },
    };
    let (perms, s6) = match p_perm_list(v, s5) {
        Some(x) => x,
        None => {
            return None;
        },
    };
    proof {
        reveal_strlit("}");
        assert("}"@ =~= seq!['}']);
    }
    let s7 = match p_lit(v, s6, "}") {
        Some(p) => p,
        None => {
            return None;
        },
    };
    let u = User {
        name: chars_to_string(&name_cs),
        public_key: chars_to_string(&key_cs),
        permissions: perms,
    };
    Some((u, s7))
}

/// The items of a non-empty user list at `pos`.
fn p_user_items(v: &Vec<char>, pos: usize) -> (r: Option<(Vec<User>, usize)>)
    requires
        pos <= v@.len(),
    ensures
        match r {
            Some((us, p2)) => pos < p2 <= v@.len() && parse_user_items(v@.skip(pos as int))
                == Some((us@.map_values(|u: User| u@), v@.skip(p2 as int))),
            None => parse_user_items(v@.skip(pos as int)) is None,
        },
    decreases v@.len() - pos,
{
    let ghost s = v@.skip(pos as int);
    match p_user(v, pos) {
        None => None,
        Some((u, p1)) => {
            let len = v.len();
            let ghost rem = v@.skip(p1 as int);
            proof {
                assert(rem.len() < s.len());
                if rem.len() > 0 {
                    assert(rem[0] == v@[p1 as int]);
                }
            }
            if p1 < len {
                let c = v[p1];
                if c == ',' {
                    proof {
                        assert(rem.drop_first() =~= v@.skip(p1 + 1));
                    }
                    match p_user_items(v, p1 + 1) {
                        Some((mut us, p2)) => {
                            let ghost us0 = us@;
                            let ghost uv = u@;
                            us.insert(0, u);
                            proof {
                                assert(us@ =~= seq![us@[0]] + us0);
                                assert(us@.map_values(|x: User| x@) =~= seq![uv] + us0.map_values(
                                    |x: User| x@,
                                ));
                            }
                            Some((us, p2))
                        },
                        None => None,
                    }
                } else if c == ']' {
                    proof {
                        assert(rem.drop_first() =~= v@.skip(p1 + 1));
                    }
                    let ghost uv = u@;
                    let mut us: Vec<User> = Vec::new();
                    us.push(u);
                    proof {
                        assert(us@.map_values(|x: User| x@) =~= seq![uv]);
                    }
                    Some((us, p1 + 1))
                } else {
                    None
                }
            } else {
                None
            }
        },
    }
}

/// A bracketed user list at `pos`.
fn p_user_list(v: &Vec<char>, pos: usize) -> (r: Option<(Vec<User>, usize)>)
    requires
        pos <= v@.len(),
    ensures
        match r {
            Some((us, p2)) => pos < p2 <= v@.len() && parse_user_list(v@.skip(pos as int))
                == Some((us@.map_values(|u: User| u@), v@.skip(p2 as int))),
            None => parse_user_list(v@.skip(pos as int)) is None,
        },
{
    let len = v.len();
    let ghost s = v@.skip(pos as int);
    if len - pos < 2 || v[pos] != '[' {
        proof {
            if s.len() >= 2 {
                assert(s[0] == v@[pos as int]);
            }
        }
        return None;
    }
    proof {
        assert(s[0] == v@[pos as int] && s[1] == v@[pos + 1]);
    }
    if v[pos + 1] == ']' {
        proof {
            assert(s.skip(2) =~= v@.skip(pos + 2));
        }
        let us: Vec<User> = Vec::new();
        proof {
            assert(us@.map_values(|u: User| u@) =~= Seq::<UserView>::empty());
        }
        Some((us, pos + 2))
    } else {
        proof {
            assert(s.drop_first() =~= v@.skip(pos + 1));
        }
        p_user_items(v, pos + 1)
    }
}

/// A whole descriptor record at `pos`.
fn p_project(v: &Vec<char>, pos: usize) -> (r: Option<(Project, usize)>)
    requires
        pos <= v@.len(),
    ensures
        match r {
            Some((p, p2)) => pos < p2 <= v@.len() && parse_project(v@.skip(pos as int)) == Some(
                (p@, v@.skip(p2 as int)),
            ),
            None => parse_project(v@.skip(pos as int)) is None,
        },
{
    let s1 = match p_lit(v, pos, "{\"name\":") {
        Some(p) => p,
        None => {
            return None;
        },
    };
    let (name_cs, s2) = match p_str(v, s1) {
        Some(x) => x,
        None => {
            return None;
        },
    };
    let s3 = match p_lit(v, s2, ",\"layout_id\":") {
        Some(p) => p,
        None => {
            return None;
        },
    };
    let (layout_id, s4) = match p_u32(v, s3) {
        Some(x) => x,
        None => {
            return None;
        },
    };
    let s5 = match p_lit(v, s4, ",\"sequences\":") {
        Some(p) => p,
        None => {
            return None;
        },
    };
    let (sequences, s6) = match p_u32_list(v, s5) {
        Some(x) => x,
        None => {
            return None;
        },
    };
    let s7 = match p_lit(v, s6, ",\"users\":") {
        Some(p) => p,
        None => {
            return None;
        },
    };
    let (users, s8) = match p_user_list(v, s7) {
        Some(x) => x,
        None => {
            return None;
        },
    };
    proof {
        reveal_strlit("}");
        assert("}"@ =~= seq!['}']);
    }
    let s9 = match p_lit(v, s8, "}") {
        Some(p) => p,
        None => {
            return None;
        },
    };
    let p = Project {
        name: chars_to_string(&name_cs),
        layout_id,
        sequences,
        users,
    };
    Some((p, s9))
}

/// Parses a descriptor text back into the project it canonically encodes;
/// anything else fails with `JsonDecode`.
pub fn decode_project(s: &str) -> (r: Result<Project, Error>)
    ensures
        match r {
            Ok(p) => spec_decode(s@) == Some(p@),
            Err(e) => e == Error::JsonDecode && spec_decode(s@) is None,
        },
{
    let v = str_chars(s);
    proof {
        assert(v@.skip(0) =~= s@);
    }
    match p_project(&v, 0) {
        Some((p, p2)) => {
            if p2 == v.len() {
                proof {
                    assert(v@.skip(p2 as int).len() == 0);
                }
                Ok(p)
            } else {
                proof {
                    assert(v@.skip(p2 as int).len() > 0);
                }
                Err(Error::JsonDecode)
            }
        },
        None => Err(Error::JsonDecode),
    }
}

} // verus!
