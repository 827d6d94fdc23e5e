//! Wire codec: canonical name forms, the newline-delimited listing format,
//! and the decimal version strings the publish protocol exchanges.
//!
//! The remote service is inconsistent about leading path separators: some
//! endpoints hand names out slash-prefixed, some bare. Normalization is
//! centralized here so that every membership check elsewhere in the client
//! compares canonical (slash-stripped) names.

use vstd::prelude::*;

verus! {

/// Canonical form of a codebase or file name: one leading '/' removed.
pub open spec fn canon(s: Seq<char>) -> Seq<char> {
    if s.len() > 0 && s[0] == '/' {
        s.drop_first()
    } else {
        s
    }
}

/// Strips one leading '/' from a name, if present.
pub fn normalize_name(s: &str) -> (r: String)
    ensures
        r@ == canon(s@),
{
    let n = s.unicode_len();
    if n > 0 && s.get_char(0) == '/' {
        let t = s.substring_char(1, n);
        proof {
            assert(t@ =~= s@.drop_first());
        }
        t.to_owned()
    } else {
        s.to_owned()
    }
}

/// Whether `name` occurs in `names`, both sides taken in canonical form.
pub open spec fn has_name(names: Seq<Seq<char>>, name: Seq<char>) -> bool {
    exists|i: int| 0 <= i < names.len() && canon(names[i]) == canon(name)
}

/// Membership check over a listing, tolerant of either name form on both
/// sides.
pub fn contains_name(names: &Vec<String>, name: &str) -> (r: bool)
    ensures
        r == has_name(names@.map_values(|s: String| s@), name@),
{
    let ghost vnames = names@.map_values(|s: String| s@);
    let target = normalize_name(name);
    let mut i: usize = 0;
    while i < names.len()
        invariant
            i <= names.len(),
            target@ == canon(name@),
            vnames == names@.map_values(|s: String| s@),
            forall|j: int| 0 <= j < i ==> canon(vnames[j]) != canon(name@),
        decreases names.len() - i,
    {
        let cand = normalize_name(names[i].as_str());
        if cand == target {
            assert(canon(vnames[i as int]) == canon(name@));
            return true;
        }
        i += 1;
    }
    false
}

/// Length of the longest newline-free prefix.
pub open spec fn seg_len(s: Seq<char>) -> nat
    decreases s.len(),
{
    if s.len() == 0 || s[0] == '\n' {
        0
    } else {
        1 + seg_len(s.drop_first())
    }
}

pub proof fn lemma_seg_len_le(s: Seq<char>)
    ensures
        seg_len(s) <= s.len(),
    decreases s.len(),
{
    if s.len() != 0 && s[0] != '\n' {
        lemma_seg_len_le(s.drop_first());
    }
}

/// A run of consecutive non-newline characters ending at the end of the
/// sequence or at a newline is exactly the leading segment.
pub proof fn lemma_seg_len_of_run(s: Seq<char>, k: int)
    requires
        0 <= k <= s.len(),
        forall|m: int| 0 <= m < k ==> s[m] != '\n',
        k == s.len() || s[k] == '\n',
    ensures
        seg_len(s) == k,
    decreases s.len(),
{
    if k > 0 {
        let t = s.drop_first();
        assert(forall|m: int| 0 <= m < k - 1 ==> t[m] == s[m + 1] && t[m] != '\n');
        lemma_seg_len_of_run(t, k - 1);
    }
}

/// The canonical names in a newline-delimited listing body: the nonempty
/// segments between newlines, each in canonical form. An empty body yields
/// the empty sequence.
pub open spec fn listing_names(s: Seq<char>) -> Seq<Seq<char>>
    decreases s.len(),
    via listing_names_decreases
{
    if s.len() == 0 {
        Seq::empty()
    } else if s[0] == '\n' {
        listing_names(s.drop_first())
    } else {
        seq![canon(s.subrange(0, seg_len(s) as int))] + listing_names(
            s.subrange(seg_len(s) as int, s.len() as int),
        )
    }
}

#[via_fn]
proof fn listing_names_decreases(s: Seq<char>) {
    if s.len() != 0 && s[0] != '\n' {
        lemma_seg_len_le(s);
    }
}

fn parse_listing_from(body: &str, i: usize, out: &mut Vec<String>)
    requires
        i <= body@.len(),
    ensures
        final(out)@.map_values(|s: String| s@) == old(out)@.map_values(|s: String| s@)
            + listing_names(body@.subrange(i as int, body@.len() as int)),
    decreases body@.len() - i,
{
    let n = body.unicode_len();
    let ghost tail = body@.subrange(i as int, n as int);
    if i == n {
        proof {
            assert(out@.map_values(|s: String| s@) =~= out@.map_values(|s: String| s@)
                + listing_names(tail));
        }
    } else {
        let c = body.get_char(i);
        if c == '\n' {
            proof {
                assert(tail.drop_first() =~= body@.subrange(i + 1, n as int));
            }
            parse_listing_from(body, i + 1, out);
        } else {
            let mut j: usize = i + 1;
            while j < n && body.get_char(j) != '\n'
                invariant
                    i < j <= n,
                    n == body@.len(),
                    forall|m: int| i <= m < j ==> body@[m] != '\n',
                decreases n - j,
            {
                j += 1;
            }
            proof {
                assert(forall|m: int| 0 <= m < j - i ==> tail[m] == body@[m + i] && tail[m]
                    != '\n');
                lemma_seg_len_of_run(tail, j - i);
                assert(tail.subrange(0, j - i) =~= body@.subrange(i as int, j as int));
                assert(tail.subrange(j - i, tail.len() as int) =~= body@.subrange(
                    j as int,
                    n as int,
                ));
            }
            let seg = body.substring_char(i, j);
            let name = normalize_name(seg);
            let ghost before = out@;
            out.push(name);
            proof {
                assert(out@.map_values(|s: String| s@) =~= before.map_values(|s: String| s@)
                    + seq![canon(seg@)]);
            }
            parse_listing_from(body, j, out);
            proof {
                assert(out@.map_values(|s: String| s@) =~= before.map_values(|s: String| s@)
                    + listing_names(tail));
            }
        }
    }
}

/// Decodes the newline-delimited listing body into its canonical names.
/// An empty body decodes to an empty listing rather than a failure.
pub fn parse_listing(body: &str) -> (r: Vec<String>)
    ensures
        r@.map_values(|s: String| s@) == listing_names(body@),
{
    let mut out: Vec<String> = Vec::new();
    parse_listing_from(body, 0, &mut out);
    proof {
        assert(body@.subrange(0, body@.len() as int) =~= body@);
        assert(out@.map_values(|s: String| s@) =~= listing_names(body@));
    }
    out
}

/// Numeric value of a digit character; 10 marks a non-digit.
pub open spec fn digit_val(c: char) -> nat {
    if c == '0' {
        0
    } else if c == '1' {
        1
    } else if c == '2' {
        2
    } else if c == '3' {
        3
    } else if c == '4' {
        4
    } else if c == '5' {
        5
    } else if c == '6' {
        6
    } else if c == '7' {
        7
    } else if c == '8' {
        8
    } else if c == '9' {
        9
    } else {
        10
    }
}

pub open spec fn all_digits(s: Seq<char>) -> bool {
    forall|i: int| 0 <= i < s.len() ==> digit_val(s[i]) < 10
}

/// Value of a sequence of decimal digits, most significant first.
pub open spec fn dec_val(s: Seq<char>) -> nat
    decreases s.len(),
{
    if s.len() == 0 {
        0
    } else {
        dec_val(s.drop_last()) * 10 + digit_val(s.last())
    }
}

fn digit_of(c: char) -> (d: u8)
    ensures
        d as nat == digit_val(c),
{
    match c {
        '0' => 0,
        '1' => 1,
        '2' => 2,
        '3' => 3,
        '4' => 4,
        '5' => 5,
        '6' => 6,
        '7' => 7,
        '8' => 8,
        '9' => 9,
        _ => 10,
    }
}

proof fn lemma_dec_val_prefix_mono(s: Seq<char>, i: int)
    requires
        0 <= i <= s.len(),
    ensures
        dec_val(s) >= dec_val(s.subrange(0, i)),
    decreases s.len() - i,
{
    if i < s.len() {
        let p = s.subrange(0, i + 1);
        assert(p.drop_last() =~= s.subrange(0, i));
        assert(dec_val(p) == dec_val(s.subrange(0, i)) * 10 + digit_val(p.last()));
        lemma_dec_val_prefix_mono(s, i + 1);
    } else {
        assert(s.subrange(0, i) =~= s);
    }
}

/// Parses a version string as a decimal integer, exactly when the string is
/// a nonempty run of digits whose value fits in a `u64`.
pub fn parse_version(s: &str) -> (r: Option<u64>)
    ensures
        r is Some <==> (s@.len() > 0 && all_digits(s@) && dec_val(s@) <= u64::MAX),
        r is Some ==> r->Some_0 as nat == dec_val(s@),
{
    let n = s.unicode_len();
    if n == 0 {
        return None;
    }
    let mut val: u64 = 0;
    let mut i: usize = 0;
    while i < n
        invariant
            i <= n,
            n == s@.len(),
            all_digits(s@.subrange(0, i as int)),
            val as nat == dec_val(s@.subrange(0, i as int)),
        decreases n - i,
    {
        let c = s.get_char(i);
        let d = digit_of(c);
        if d >= 10 {
            assert(digit_val(s@[i as int]) >= 10);
            return None;
        }
        let ghost prefix = s@.subrange(0, i as int);
        let ghost extended = s@.subrange(0, i + 1);
        proof {
            assert(extended.drop_last() =~= prefix);
            assert(extended.last() == s@[i as int]);
            assert(dec_val(extended) == dec_val(prefix) * 10 + digit_val(s@[i as int]));
        }
        if val > (u64::MAX - d as u64) / 10 {
            proof {
                assert(val as nat * 10 + d as nat > u64::MAX) by (nonlinear_arith)
                    requires
                        val as nat > (u64::MAX as nat - d as nat) / 10,
                        d < 10,
                ;
                lemma_dec_val_prefix_mono(s@, i + 1);
                assert(dec_val(s@) > u64::MAX);
            }
            return None;
        }
        proof {
            assert(val as nat * 10 + d as nat <= u64::MAX) by (nonlinear_arith)
                requires
                    val as nat <= (u64::MAX as nat - d as nat) / 10,
                    d < 10,
            ;
        }
        val = val * 10 + d as u64;
        i += 1;
    }
    proof {
        assert(s@.subrange(0, n as int) =~= s@);
    }
    Some(val)
}

/// The digit character of a value below ten; '?' marks the out-of-range case.
pub open spec fn digit_char(d: nat) -> char {
    if d == 0 {
        '0'
    } else if d == 1 {
        '1'
    } else if d == 2 {
        '2'
    } else if d == 3 {
        '3'
    } else if d == 4 {
        '4'
    } else if d == 5 {
        '5'
    } else if d == 6 {
        '6'
    } else if d == 7 {
        '7'
    } else if d == 8 {
        '8'
    } else if d == 9 {
        '9'
    } else {
        '?'
    }
}

/// Decimal rendering of a natural number, most significant digit first.
pub open spec fn dec_string(n: nat) -> Seq<char>
    decreases n,
{
    if n < 10 {
        seq![digit_char(n)]
    } else {
        dec_string(n / 10).push(digit_char(n % 10))
    }
}

fn digit_str(d: u8) -> (s: &'static str)
    requires
        d < 10,
    ensures
        s@ == seq![digit_char(d as nat)],
{
    proof {
        reveal_strlit("0");
        reveal_strlit("1");
        reveal_strlit("2");
        reveal_strlit("3");
        reveal_strlit("4");
        reveal_strlit("5");
        reveal_strlit("6");
        reveal_strlit("7");
        reveal_strlit("8");
        reveal_strlit("9");
    }
    let s = match d {
        0 => "0",
        1 => "1",
        2 => "2",
        3 => "3",
        4 => "4",
        5 => "5",
        6 => "6",
        7 => "7",
        8 => "8",
        _ => "9",
    };
    proof {
        assert(s@ =~= seq![digit_char(d as nat)]);
    }
    s
}

/// Renders a number in decimal, matching `dec_string`.
pub fn format_u64(n: u64) -> (r: String)
    ensures
        r@ == dec_string(n as nat),
    decreases n,
{
    if n < 10 {
        String::from_str(digit_str(n as u8))
    } else {
        let mut r = format_u64(n / 10);
        r.append(digit_str((n % 10) as u8));
        proof {
            assert(r@ =~= dec_string(n as nat));
        }
        r
    }
}

} // verus!
