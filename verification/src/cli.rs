//! The command line: `--shader N` and `--preset N` boot straight into a look.

use vstd::prelude::*;

verus! {

/// Whether `c` is an ASCII decimal digit.
pub open spec fn is_digit(c: char) -> bool {
    '0' <= c && c <= '9'
}

/// The value of a sequence of decimal digits (most significant first).
pub open spec fn digits_value(s: Seq<char>) -> nat
    decreases s.len(),
{
    if s.len() == 0 {
        0
    } else {
        digits_value(s.drop_last()) * 10 + ((s.last() as nat) - ('0' as nat)) as nat
    }
}

/// Whether every character of `d` is a decimal digit.
pub open spec fn all_digits(d: Seq<char>) -> bool {
    forall|i: int| 0 <= i < d.len() ==> is_digit(#[trigger] d[i])
}

/// `s` without its leading `+`, if it has one.
pub open spec fn unsigned_part(s: Seq<char>) -> Seq<char> {
    if s.len() > 0 && s[0] == '+' { s.drop_first() } else { s }
}

/// What `usize`'s `FromStr` yields: an optional leading `+`, then one or
/// more decimal digits whose value fits in a `usize`; anything else fails.
pub open spec fn parse_usize_spec(s: Seq<char>) -> Option<usize> {
    let d = unsigned_part(s);
    if d.len() > 0 && all_digits(d) && digits_value(d) <= usize::MAX {
        Some(digits_value(d) as usize)
    } else {
        None
    }
}

/// Parse a decimal index the way `str::parse::<usize>` does.
pub fn parse_index(s: &str) -> (r: Option<usize>)
    ensures
        r == parse_usize_spec(s@),
{
    let len = s.unicode_len();
    let start: usize = if len > 0 && s.get_char(0) == '+' { 1 } else { 0 };
    let ghost d = unsigned_part(s@);
    assert(d =~= s@.subrange(start as int, len as int));
    if start >= len {
        return None;
    }
    let mut value: usize = 0;
    let mut i: usize = start;
    while i < len
        invariant
            len == s@.len(),
            start <= i <= len,
            d =~= s@.subrange(start as int, len as int),
            d == unsigned_part(s@),
            forall|j: int| start <= j < i ==> is_digit(#[trigger] s@[j]),
            value == digits_value(s@.subrange(start as int, i as int)),
        decreases len - i,
    {
        let c = s.get_char(i);
        let ghost pre = s@.subrange(start as int, i as int);
        let ghost next = s@.subrange(start as int, i + 1);
        assert(next.drop_last() =~= pre);
        assert(d[i - start] == c);
        if !('0' <= c && c <= '9') {
            assert(!is_digit(d[i - start]));
            assert(!all_digits(d));
            return None;
        }
        assert(d.subrange(0, i + 1 - start) =~= next);
        assert(digits_value(next) == value * 10 + (c as nat - '0' as nat));
        let digit = (c as u32 - '0' as u32) as usize;
        match value.checked_mul(10) {
            Some(v10) => match v10.checked_add(digit) {
                Some(v) => {
                    value = v;
                },
                None => {
                    proof { lemma_overflow_rejected(d, (i + 1 - start) as nat); }
                    return None;
                },
            },
            None => {
                proof { lemma_overflow_rejected(d, (i + 1 - start) as nat); }
                return None;
            },
        }
        i = i + 1;
    }
    proof {
        lemma_digits_value_grows(d, d.len());
    }
    Some(value)
}

/// A lone decimal digit parses to its value.
pub proof fn lemma_parse_single_digit(c: char)
    requires
        '0' <= c <= '9',
    ensures
        parse_usize_spec(seq![c]) == Some(((c as nat) - ('0' as nat)) as usize),
{
    let s = seq![c];
    assert(unsigned_part(s) == s);
    assert(s.drop_last() =~= Seq::<char>::empty());
    assert(digits_value(s) == digits_value(s.drop_last()) * 10 + ((c as nat) - ('0' as nat)) as nat);
}

/// Appending a digit to an unsigned decimal number shifts it one decimal
/// place up and adds the digit (as long as the result fits in a `usize`).
pub proof fn lemma_parse_appends_digit(d: Seq<char>, c: char)
    requires
        d.len() > 0,
        d[0] != '+',
        parse_usize_spec(d) is Some,
        '0' <= c <= '9',
        parse_usize_spec(d).unwrap() * 10 + ((c as nat) - ('0' as nat)) <= usize::MAX,
    ensures
        parse_usize_spec(d.push(c)) == Some(
            (parse_usize_spec(d).unwrap() * 10 + ((c as nat) - ('0' as nat))) as usize,
        ),
{
    let e = d.push(c);
    assert(e[0] == d[0]);
    assert(unsigned_part(d) == d);
    assert(unsigned_part(e) == e);
    assert(e.drop_last() =~= d);
    assert forall|i: int| 0 <= i < e.len() implies is_digit(#[trigger] e[i]) by {
        if i < d.len() {
            assert(e[i] == d[i]);
        }
    }
}

/// A leading `+` is accepted and changes nothing.
pub proof fn lemma_parse_plus(d: Seq<char>)
    requires
        d.len() > 0,
        d[0] != '+',
    ensures
        parse_usize_spec(seq!['+'] + d) == parse_usize_spec(d),
{
    let e = seq!['+'] + d;
    assert(e[0] == '+');
    assert(e.drop_first() =~= d);
    assert(unsigned_part(d) == d);
}

/// Any character other than a digit (after an optional leading `+`) makes
/// the text fail to parse, and so does the empty text.
pub proof fn lemma_parse_rejects(s: Seq<char>, i: int)
    requires
        0 <= i < s.len(),
        !('0' <= s[i] <= '9'),
        !(i == 0 && s[i] == '+'),
    ensures
        parse_usize_spec(s) is None,
        parse_usize_spec(Seq::<char>::empty()) is None,
{
    let d = unsigned_part(s);
    if s[0] == '+' {
        assert(i > 0);
        assert(d[i - 1] == s[i]);
        assert(!is_digit(d[i - 1]));
    } else {
        assert(d == s);
        assert(!is_digit(d[i]));
    }
}

/// Whether two strings hold the same characters.
pub fn same_text(a: &str, b: &str) -> (r: bool)
    ensures
        r == (a@ == b@),
{
    let n = a.unicode_len();
    if n != b.unicode_len() {
        return false;
    }
    let mut i: usize = 0;
    while i < n
        invariant
            n == a@.len(),
            n == b@.len(),
            i <= n,
            forall|j: int| 0 <= j < i ==> a@[j] == b@[j],
        decreases n - i,
    {
        if a.get_char(i) != b.get_char(i) {
            return false;
        }
        i = i + 1;
    }
    assert(a@ =~= b@);
    true
}

/// Where the app boots: the warp shader and the preset given on the
/// command line, if any.
#[derive(Clone, Copy, PartialEq, Eq, Debug, Structural)]
pub struct BootArgs {
    pub shader: Option<usize>,
    pub preset: Option<usize>,
}

/// Scan the arguments left to right: `--shader` and `--preset` take the next
/// argument (consumed even when it is not a number, which then clears the
/// option); a later occurrence overrides an earlier one; anything else is
/// skipped.
pub open spec fn scan_args(args: Seq<Seq<char>>, acc: BootArgs) -> BootArgs
    decreases args.len(),
{
    if args.len() == 0 {
        acc
    } else {
        let value = if args.len() >= 2 { parse_usize_spec(args[1]) } else { None };
        let rest = args.subrange(if args.len() >= 2 { 2 } else { 1 }, args.len() as int);
        if args[0] == "--shader"@ {
            scan_args(rest, BootArgs { shader: value, ..acc })
        } else if args[0] == "--preset"@ {
            scan_args(rest, BootArgs { preset: value, ..acc })
        } else {
            scan_args(args.drop_first(), acc)
        }
    }
}

/// The character sequences of a list of strings.
pub open spec fn texts(args: Seq<String>) -> Seq<Seq<char>> {
    args.map_values(|a: String| a@)
}

/// Parse the command-line arguments (without the program name).
pub fn parse_boot_args(args: &[String]) -> (r: BootArgs)
    ensures
        r == scan_args(texts(args@), BootArgs { shader: None, preset: None }),
{
    let ghost all = texts(args@);
    let n = args.len();
    let mut acc = BootArgs { shader: None, preset: None };
    let mut i: usize = 0;
    assert(all.subrange(0, n as int) =~= all);
    while i < n
        invariant
            n == args@.len(),
            all == texts(args@),
            i <= n,
            scan_args(all, BootArgs { shader: None, preset: None }) == scan_args(
                all.subrange(i as int, n as int),
                acc,
            ),
        decreases n - i,
    {
        let ghost cur = all.subrange(i as int, n as int);
        assert(cur[0] == args@[i as int]@);
        let a = args[i].as_str();
        let is_shader = same_text(a, "--shader");
        let is_preset = same_text(a, "--preset");
        if is_shader || is_preset {
            let value = if i + 1 < n {
                assert(cur[1] == args@[i + 1]@);
                parse_index(args[i + 1].as_str())
            } else {
                None
            };
            if is_shader {
                acc = BootArgs { shader: value, ..acc };
            } else {
                acc = BootArgs { preset: value, ..acc };
            }
            let next = if i + 1 < n { i + 2 } else { i + 1 };
            assert(cur.subrange(if cur.len() >= 2 { 2 } else { 1 }, cur.len() as int) =~= all.subrange(
                next as int,
                n as int,
            ));
            i = next;
        } else {
            assert(cur.drop_first() =~= all.subrange(i + 1, n as int));
            i = i + 1;
        }
    }
    assert(all.subrange(n as int, n as int) =~= Seq::<Seq<char>>::empty());
    acc
}

/// Whether `s` is one of the two flags.
pub open spec fn is_flag(s: Seq<char>) -> bool {
    s == "--shader"@ || s == "--preset"@
}

proof fn lemma_flag_facts()
    ensures
        "--shader"@ != "--preset"@,
        parse_usize_spec("--shader"@) is None,
        parse_usize_spec("--preset"@) is None,
{
    reveal_strlit("--shader");
    reveal_strlit("--preset");
    assert("--shader"@[0] == '-');
    assert("--preset"@[0] == '-');
    assert(unsigned_part("--shader"@) == "--shader"@);
    assert(unsigned_part("--preset"@) == "--preset"@);
    assert(!is_digit("--shader"@[0]));
    assert(!is_digit("--preset"@[0]));
}

/// Each option depends only on its own flag: appending `--shader v` (for a
/// value `v` that is not itself a flag) to any argument list leaves the
/// preset as it was, and appending `--preset v` leaves the shader as it was.
pub proof fn lemma_flags_independent(args: Seq<Seq<char>>, acc: BootArgs, v: Seq<char>)
    requires
        !is_flag(v),
    ensures
        scan_args(args + seq!["--shader"@, v], acc).preset == scan_args(args, acc).preset,
        scan_args(args + seq!["--preset"@, v], acc).shader == scan_args(args, acc).shader,
    decreases args.len(),
{
    lemma_flag_facts();
    let t1 = seq!["--shader"@, v];
    let t2 = seq!["--preset"@, v];
    if args.len() == 0 {
        assert(args + t1 =~= t1);
        assert(args + t2 =~= t2);
        lemma_pair_scan("--shader"@, v, acc);
        lemma_pair_scan("--preset"@, v, acc);
        assert(scan_args(args, acc) == acc);
    } else if args.len() == 1 && is_flag(args[0]) {
        let f = args[0];
        let a1 = args + t1;
        let a2 = args + t2;
        assert(a1 =~= seq![f, "--shader"@, v]);
        assert(a2 =~= seq![f, "--preset"@, v]);
        let vs = seq![v];
        assert(vs[0] == v);
        assert(vs.drop_first() =~= Seq::<Seq<char>>::empty());
        assert(a1.subrange(2, 3) =~= vs);
        assert(a2.subrange(2, 3) =~= vs);
        let e = args.subrange(1, 1);
        assert(e =~= Seq::<Seq<char>>::empty());
        let acc_s = BootArgs { shader: None, ..acc };
        let acc_p = BootArgs { preset: None, ..acc };
        assert(scan_args(vs, acc_s) == scan_args(vs.drop_first(), acc_s));
        assert(scan_args(vs, acc_p) == scan_args(vs.drop_first(), acc_p));
        assert(scan_args(e, acc_s) == acc_s);
        assert(scan_args(e, acc_p) == acc_p);
        if f == "--shader"@ {
            assert(scan_args(args, acc) == scan_args(e, acc_s));
            assert(scan_args(a1, acc) == scan_args(vs, acc_s));
            assert(scan_args(a2, acc) == scan_args(vs, acc_s));
        } else {
            assert(scan_args(args, acc) == scan_args(e, acc_p));
            assert(scan_args(a1, acc) == scan_args(vs, acc_p));
            assert(scan_args(a2, acc) == scan_args(vs, acc_p));
        }
    } else {
        let a1 = args + t1;
        let a2 = args + t2;
        assert(a1[0] == args[0]);
        assert(a2[0] == args[0]);
        if is_flag(args[0]) {
            assert(args.len() >= 2);
            assert(a1[1] == args[1]);
            assert(a2[1] == args[1]);
            let rest = args.subrange(2, args.len() as int);
            assert(a1.subrange(2, a1.len() as int) =~= rest + t1);
            assert(a2.subrange(2, a2.len() as int) =~= rest + t2);
            let value = parse_usize_spec(args[1]);
            let acc_s = BootArgs { shader: value, ..acc };
            let acc_p = BootArgs { preset: value, ..acc };
            lemma_flags_independent(rest, acc_s, v);
            lemma_flags_independent(rest, acc_p, v);
            if args[0] == "--shader"@ {
                assert(scan_args(args, acc) == scan_args(rest, acc_s));
                assert(scan_args(a1, acc) == scan_args(rest + t1, acc_s));
                assert(scan_args(a2, acc) == scan_args(rest + t2, acc_s));
            } else {
                assert(scan_args(args, acc) == scan_args(rest, acc_p));
                assert(scan_args(a1, acc) == scan_args(rest + t1, acc_p));
                assert(scan_args(a2, acc) == scan_args(rest + t2, acc_p));
            }
        } else {
            let rest = args.drop_first();
            assert(a1.drop_first() =~= rest + t1);
            assert(a2.drop_first() =~= rest + t2);
            lemma_flags_independent(rest, acc, v);
            assert(scan_args(args, acc) == scan_args(rest, acc));
            assert(scan_args(a1, acc) == scan_args(rest + t1, acc));
            assert(scan_args(a2, acc) == scan_args(rest + t2, acc));
        }
    }
}

/// An option given once on its own takes the parsed value that follows it,
/// and leaves the other option as it was.
pub proof fn lemma_single_flag(acc: BootArgs, v: Seq<char>)
    ensures
        scan_args(seq!["--shader"@, v], acc) == (BootArgs { shader: parse_usize_spec(v), ..acc }),
        scan_args(seq!["--preset"@, v], acc) == (BootArgs { preset: parse_usize_spec(v), ..acc }),
{
    lemma_flag_facts();
    lemma_pair_scan("--shader"@, v, acc);
    lemma_pair_scan("--preset"@, v, acc);
}

/// Scanning a two-argument list: one step on its first argument.
proof fn lemma_pair_scan(f: Seq<char>, v: Seq<char>, acc: BootArgs)
    ensures
        ({
            let s = seq![f, v];
            scan_args(s, acc) == if f == "--shader"@ {
                BootArgs { shader: parse_usize_spec(v), ..acc }
            } else if f == "--preset"@ {
                BootArgs { preset: parse_usize_spec(v), ..acc }
            } else {
                scan_args(seq![v], acc)
            }
        }),
{
    let s = seq![f, v];
    assert(s[0] == f);
    assert(s[1] == v);
    let e = s.subrange(2, 2);
    assert(e =~= Seq::<Seq<char>>::empty());
    assert(s.drop_first() =~= seq![v]);
    assert(scan_args(e, BootArgs { shader: parse_usize_spec(v), ..acc }) == BootArgs {
        shader: parse_usize_spec(v),
        ..acc
    });
    assert(scan_args(e, BootArgs { preset: parse_usize_spec(v), ..acc }) == BootArgs {
        preset: parse_usize_spec(v),
        ..acc
    });
}

/// A digit prefix whose value does not fit in a `usize` makes the whole
/// sequence fail to parse.
proof fn lemma_overflow_rejected(d: Seq<char>, k: nat)
    requires
        k <= d.len(),
        digits_value(d.subrange(0, k as int)) > usize::MAX,
    ensures
        !(d.len() > 0 && all_digits(d) && digits_value(d) <= usize::MAX),
{
    if all_digits(d) {
        lemma_digits_value_grows(d, k);
    }
}

/// The value of a digit sequence is at least that of any of its prefixes.
proof fn lemma_digits_value_grows(s: Seq<char>, k: nat)
    requires
        k <= s.len(),
        all_digits(s),
    ensures
        digits_value(s.subrange(0, k as int)) <= digits_value(s),
    decreases s.len() - k,
{
    if k < s.len() {
        lemma_digits_value_grows(s, k + 1);
        let p = s.subrange(0, (k + 1) as int);
        assert(p.drop_last() =~= s.subrange(0, k as int));
        assert(is_digit(p.last()));
    } else {
        assert(s.subrange(0, k as int) =~= s);
    }
}

} // verus!
