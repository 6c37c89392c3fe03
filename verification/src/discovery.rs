//! Reading the list of listening TCP ports out of the text that `ss -tlnp`
//! or `netstat -tlnp` print on the remote host.
use std::collections::HashSet;
use vstd::prelude::*;

use crate::text::{chars_of, decimal, digit_char, is_space, is_space_char, range_starts_with, starts_with, two_digits};

verus! {

broadcast use vstd::std_specs::hash::group_hash_axioms;

// ── Specification ────────────────────────────────────────────────────────────

/// Length of the run of non-space characters at the start of `s`.
pub open spec fn word_len(s: Seq<char>) -> nat
    decreases s.len(),
{
    if s.len() == 0 || is_space(s[0]) {
        0
    } else {
        1 + word_len(s.drop_first())
    }
}

pub proof fn lemma_word_len_bound(s: Seq<char>)
    ensures
        word_len(s) <= s.len(),
        s.len() > 0 && !is_space(s[0]) ==> word_len(s) >= 1,
    decreases s.len(),
{
    if s.len() > 0 && !is_space(s[0]) {
        lemma_word_len_bound(s.drop_first());
    }
}

/// The white-space separated fields of `s`, as `str::split_whitespace` yields them.
pub open spec fn fields(s: Seq<char>) -> Seq<Seq<char>>
    decreases s.len(),
{
    if s.len() == 0 {
        Seq::empty()
    } else if is_space(s[0]) {
        fields(s.drop_first())
    } else {
        let n = word_len(s);
        proof {
            lemma_word_len_bound(s);
        }
        seq![s.take(n as int)] + fields(s.skip(n as int))
    }
}

/// The part of `w` after its last `:` (all of `w` when it holds no `:`),
/// which is what `w.rsplit(':').next()` yields.
pub open spec fn after_last_colon(w: Seq<char>) -> Seq<char>
    decreases w.len(),
{
    if w.len() == 0 {
        w
    } else if w.last() == ':' {
        Seq::empty()
    } else {
        after_last_colon(w.drop_last()).push(w.last())
    }
}

pub open spec fn is_digit(c: char) -> bool {
    48 <= (c as u32) <= 57
}

/// The number that a string of decimal digits denotes.
pub open spec fn digits_value(d: Seq<char>) -> nat
    decreases d.len(),
{
    if d.len() == 0 {
        0
    } else {
        digits_value(d.drop_last()) * 10 + ((d.last() as u32) - 48) as nat
    }
}

/// The digits of a number written with an optional leading `+`.
pub open spec fn unsigned_digits(w: Seq<char>) -> Seq<char> {
    if w.len() > 0 && w[0] == '+' {
        w.drop_first()
    } else {
        w
    }
}

/// The value of a non-empty string of decimal digits, when it fits in 16 bits.
pub open spec fn digits_u16(d: Seq<char>) -> Option<u16> {
    if d.len() > 0 && (forall|i: int| 0 <= i < d.len() ==> is_digit(#[trigger] d[i]))
        && digits_value(d) <= 65535 {
        Some(digits_value(d) as u16)
    } else {
        None
    }
}

/// `w.parse::<u16>()`: an optional `+`, then one or more decimal digits whose
/// value fits in 16 bits.
pub open spec fn parse_u16(w: Seq<char>) -> Option<u16> {
    digits_u16(unsigned_digits(w))
}

/// Whether a field opens one of the header lines that `ss` and `netstat` print.
pub open spec fn is_header_field(f: Seq<char>) -> bool {
    ||| starts_with(f, "State"@)
    ||| starts_with(f, "Proto"@)
    ||| starts_with(f, "Active"@)
}

/// The port that one line of output reports: the number after the last `:`
/// of the fourth column, on lines that are neither blank nor a header.
pub open spec fn line_port(line: Seq<char>) -> Option<u16> {
    let f = fields(line);
    if f.len() == 0 || is_header_field(f[0]) || f.len() < 4 {
        None
    } else {
        parse_u16(after_last_colon(f[3]))
    }
}

/// Index of the first line feed in `s`, or its length when there is none.
pub open spec fn line_end(s: Seq<char>) -> nat
    decreases s.len(),
{
    if s.len() == 0 || s[0] == '\n' {
        0
    } else {
        1 + line_end(s.drop_first())
    }
}

pub proof fn lemma_line_end_bound(s: Seq<char>)
    ensures
        line_end(s) <= s.len(),
    decreases s.len(),
{
    if s.len() > 0 && s[0] != '\n' {
        lemma_line_end_bound(s.drop_first());
    }
}

/// The ports that the lines of `s` report.
pub open spec fn listening_ports(s: Seq<char>) -> Set<u16>
    decreases s.len(),
{
    let n = line_end(s);
    let here = match line_port(s.take(n as int)) {
        Some(p) => set![p],
        None => Set::empty(),
    };
    proof {
        lemma_line_end_bound(s);
    }
    if n < s.len() {
        here.union(listening_ports(s.skip(n as int + 1)))
    } else {
        here
    }
}


// ── Parsing ──────────────────────────────────────────────────────────────────

/// The texts of the fields whose bounds `bs` gives within `s`.
pub open spec fn bound_texts(s: Seq<char>, bs: Seq<(usize, usize)>) -> Seq<Seq<char>> {
    bs.map_values(|x: (usize, usize)| s.subrange(x.0 as int, x.1 as int))
}

/// End of the run of non-space characters of `s` that starts at `pos`.
fn word_end(s: &Vec<char>, pos: usize, b: usize) -> (e: usize)
    requires
        pos <= b <= s@.len(),
    ensures
        pos <= e <= b,
        word_len(s@.subrange(pos as int, b as int)) == e - pos,
{
    let mut j = pos;
    while j < b && !is_space_char(s[j])
        invariant
            pos <= j <= b <= s@.len(),
            word_len(s@.subrange(pos as int, b as int)) == (j - pos) + word_len(
                s@.subrange(j as int, b as int),
            ),
        decreases b - j,
    {
        assert(s@.subrange(j as int, b as int).drop_first() =~= s@.subrange(j + 1, b as int));
        j = j + 1;
    }
    j
}

/// Bounds of the first (at most four) fields of the line `s[a..b]`.
fn field_bounds(s: &Vec<char>, a: usize, b: usize) -> (bs: Vec<(usize, usize)>)
    requires
        a <= b <= s@.len(),
    ensures
        bs@.len() <= 4,
        bs@.len() < 4 ==> fields(s@.subrange(a as int, b as int)) == bound_texts(s@, bs@),
        bs@.len() == 4 ==> fields(s@.subrange(a as int, b as int)).len() >= 4,
        forall|i: int|
            0 <= i < bs@.len() ==> {
                &&& a <= (#[trigger] bs@[i]).0 <= bs@[i].1 <= b
                &&& fields(s@.subrange(a as int, b as int))[i] == s@.subrange(
                    bs@[i].0 as int,
                    bs@[i].1 as int,
                )
            },
{
    let mut bs: Vec<(usize, usize)> = Vec::new();
    let mut pos = a;
    while pos < b && bs.len() < 4
        invariant
            a <= pos <= b <= s@.len(),
            bs@.len() <= 4,
            forall|i: int| 0 <= i < bs@.len() ==> a <= (#[trigger] bs@[i]).0 <= bs@[i].1 <= b,
            fields(s@.subrange(a as int, b as int)) == bound_texts(s@, bs@) + fields(
                s@.subrange(pos as int, b as int),
            ),
        decreases b - pos,
    {
        let ghost t = s@.subrange(pos as int, b as int);
        if is_space_char(s[pos]) {
            assert(t.drop_first() =~= s@.subrange(pos + 1, b as int));
            pos = pos + 1;
        } else {
            let e = word_end(s, pos, b);
            let ghost k = (e - pos) as int;
            assert(t.take(k) =~= s@.subrange(pos as int, e as int));
            assert(t.skip(k) =~= s@.subrange(e as int, b as int));
            assert(fields(t) == seq![t.take(k)] + fields(t.skip(k)));
            let ghost old_bs = bs@;
            bs.push((pos, e));
            assert(bound_texts(s@, bs@) =~= bound_texts(s@, old_bs).push(
                s@.subrange(pos as int, e as int),
            ));
            assert(bound_texts(s@, old_bs) + fields(t) =~= bound_texts(s@, bs@) + fields(
                s@.subrange(e as int, b as int),
            ));
            pos = e;
        }
    }
    proof {
        if bs@.len() < 4 {
            assert(s@.subrange(pos as int, b as int) =~= Seq::<char>::empty());
            assert(fields(s@.subrange(a as int, b as int)) =~= bound_texts(s@, bs@));
        }
        let fs = fields(s@.subrange(a as int, b as int));
        assert forall|i: int| 0 <= i < bs@.len() implies fs[i] == s@.subrange(
            (#[trigger] bs@[i]).0 as int,
            bs@[i].1 as int,
        ) by {
            assert(fs[i] == bound_texts(s@, bs@)[i]);
        }
    }
    bs
}

/// Start of the part of `s[a..b]` that follows its last `:`.
fn colon_tail_start(s: &Vec<char>, a: usize, b: usize) -> (j: usize)
    requires
        a <= b <= s@.len(),
    ensures
        a <= j <= b,
        s@.subrange(j as int, b as int) == after_last_colon(s@.subrange(a as int, b as int)),
{
    let mut j = b;
    while j > a && s[j - 1] != ':'
        invariant
            a <= j <= b <= s@.len(),
            after_last_colon(s@.subrange(a as int, b as int)) == after_last_colon(
                s@.subrange(a as int, j as int),
            ) + s@.subrange(j as int, b as int),
        decreases j - a,
    {
        let ghost w = s@.subrange(a as int, j as int);
        assert(w.drop_last() =~= s@.subrange(a as int, j - 1));
        assert(after_last_colon(w) == after_last_colon(w.drop_last()).push(w.last()));
        assert(after_last_colon(w.drop_last()).push(w.last()) + s@.subrange(j as int, b as int)
            =~= after_last_colon(w.drop_last()) + s@.subrange(j - 1, b as int));
        j = j - 1;
    }
    proof {
        let w = s@.subrange(a as int, j as int);
        if j == a {
            assert(w =~= Seq::<char>::empty());
        }
        assert(after_last_colon(w) =~= Seq::<char>::empty());
        assert(after_last_colon(s@.subrange(a as int, b as int)) =~= s@.subrange(
            j as int,
            b as int,
        ));
    }
    j
}

/// `decimal(n)` is a string of decimal digits that denotes `n`, with no
/// leading zero; numbers below 10 take one digit and the others more.
pub proof fn law_decimal_denotes(n: nat)
    ensures
        decimal(n).len() >= 1,
        forall|i: int| 0 <= i < decimal(n).len() ==> is_digit(#[trigger] decimal(n)[i]),
        digits_value(decimal(n)) == n,
        n >= 10 ==> decimal(n)[0] != '0' && decimal(n).len() >= 2,
        n < 10 ==> decimal(n).len() == 1,
    decreases n,
{
    if n >= 10 {
        law_decimal_denotes(n / 10);
        let d = decimal(n / 10);
        assert(decimal(n) == d.push(digit_char(n % 10)));
        assert(decimal(n).drop_last() =~= d);
        assert((digit_char(n % 10) as u32) == 48 + n % 10);
        assert(digits_value(decimal(n)) == digits_value(d) * 10 + n % 10);
        assert forall|i: int| 0 <= i < decimal(n).len() implies is_digit(#[trigger] decimal(n)[i]) by {
            if i < d.len() {
                assert(decimal(n)[i] == d[i]);
            }
        }
        assert(decimal(n)[0] == d[0]);
        if n / 10 < 10 {
            assert(d[0] == digit_char(n / 10));
        }
    } else {
        assert(decimal(n).drop_last() =~= Seq::<char>::empty());
        assert((digit_char(n) as u32) == 48 + n);
        assert(digits_value(Seq::<char>::empty()) == 0);
        assert(digits_value(decimal(n)) == digits_value(decimal(n).drop_last()) * 10 + n);
    }
}

/// `two_digits(n)` denotes `n` in decimal digits, and below 100 it takes
/// exactly two of them.
pub proof fn law_two_digits_denotes(n: nat)
    ensures
        forall|i: int| 0 <= i < two_digits(n).len() ==> is_digit(#[trigger] two_digits(n)[i]),
        digits_value(two_digits(n)) == n,
        n < 100 ==> two_digits(n).len() == 2,
{
    law_decimal_denotes(n);
    if n < 10 {
        let t = two_digits(n);
        assert(t =~= seq!['0', digit_char(n)]);
        assert(t.drop_last() =~= seq!['0']);
        assert(seq!['0'].drop_last() =~= Seq::<char>::empty());
        assert(('0' as u32) == 48);
        assert((digit_char(n) as u32) == 48 + n);
        assert(digits_value(Seq::<char>::empty()) == 0);
        assert(digits_value(seq!['0']) == digits_value(seq!['0'].drop_last()) * 10 + 0);
    } else if n < 100 {
        law_decimal_denotes(n / 10);
    }
}

/// The part after the last `:` holds no `:` and ends `w`; when `w` holds a
/// `:`, the character just before that part is one.
pub proof fn law_after_last_colon(w: Seq<char>)
    ensures
        ({
            let a = after_last_colon(w);
            &&& a.len() <= w.len()
            &&& w.subrange(w.len() - a.len(), w.len() as int) == a
            &&& forall|i: int| 0 <= i < a.len() ==> #[trigger] a[i] != ':'
            &&& w.contains(':') ==> a.len() < w.len() && w[w.len() - a.len() - 1] == ':'
            &&& !w.contains(':') ==> a == w
        }),
    decreases w.len(),
{
    if w.len() > 0 {
        if w.last() == ':' {
            assert(w[w.len() - 1] == ':');
        } else {
            let v = w.drop_last();
            law_after_last_colon(v);
            let b = after_last_colon(v);
            let a = after_last_colon(w);
            assert(a == b.push(w.last()));
            assert(w.subrange(w.len() - a.len(), w.len() as int) =~= v.subrange(
                v.len() - b.len(),
                v.len() as int,
            ).push(w.last()));
            assert forall|i: int| 0 <= i < a.len() implies #[trigger] a[i] != ':' by {
                if i < b.len() {
                    assert(a[i] == b[i]);
                }
            }
            if w.contains(':') {
                let k = choose|k: int| 0 <= k < w.len() && w[k] == ':';
                assert(v[k] == ':');
                assert(v.contains(':'));
                assert(w[w.len() - a.len() - 1] == v[v.len() - b.len() - 1]);
            } else {
                assert forall|k: int| 0 <= k < v.len() implies v[k] != ':' by {
                    assert(w[k] == v[k]);
                }
                assert(a =~= w);
            }
        }
    }
}

/// A port written in decimal reads back as itself.
pub proof fn law_parse_decimal_port(p: u16)
    ensures
        parse_u16(decimal(p as nat)) == Some(p),
{
    law_decimal_denotes(p as nat);
    assert(decimal(p as nat)[0] != '+') by {
        assert(is_digit(decimal(p as nat)[0]));
    }
}

proof fn lemma_digits_value_step(d: Seq<char>, i: int)
    requires
        0 <= i < d.len(),
    ensures
        digits_value(d.take(i + 1)) == digits_value(d.take(i)) * 10 + ((d[i] as u32) - 48) as nat,
{
    assert(d.take(i + 1).drop_last() =~= d.take(i));
}

proof fn lemma_digits_value_grows(d: Seq<char>, i: int, j: int)
    requires
        0 <= i <= j <= d.len(),
        forall|k: int| 0 <= k < d.len() ==> is_digit(#[trigger] d[k]),
    ensures
        digits_value(d.take(i)) <= digits_value(d.take(j)),
    decreases j - i,
{
    if i < j {
        lemma_digits_value_grows(d, i, j - 1);
        lemma_digits_value_step(d, j - 1);
        assert(is_digit(d[j - 1]));
    }
}

/// `s[a..b].parse::<u16>()`, as an `Option`.
fn parse_port(s: &Vec<char>, a: usize, b: usize) -> (r: Option<u16>)
    requires
        a <= b <= s@.len(),
    ensures
        r == parse_u16(s@.subrange(a as int, b as int)),
{
    let ghost w = s@.subrange(a as int, b as int);
    let start = if a < b && s[a] == '+' {
        a + 1
    } else {
        a
    };
    let ghost d = s@.subrange(start as int, b as int);
    assert(d =~= unsigned_digits(w));
    if start == b {
        return None;
    }
    let mut value: u32 = 0;
    let mut i = start;
    while i < b
        invariant
            a <= start < b <= s@.len(),
            w == s@.subrange(a as int, b as int),
            d == s@.subrange(start as int, b as int),
            d == unsigned_digits(w),
            start <= i <= b,
            value <= 65535,
            value == digits_value(d.take(i - start)),
            forall|k: int| 0 <= k < i - start ==> is_digit(#[trigger] d[k]),
        decreases b - i,
    {
        let c = s[i];
        let u = c as u32;
        if u < 48 || u > 57 {
            assert(!is_digit(d[i - start]));
            assert(!(forall|k: int| 0 <= k < d.len() ==> is_digit(#[trigger] d[k])));
            assert(digits_u16(d) is None);
            return None;
        }
        proof {
            lemma_digits_value_step(d, i - start);
        }
        let next = value * 10 + (u - 48);
        if next > 65535 {
            proof {
                if forall|k: int| 0 <= k < d.len() ==> is_digit(#[trigger] d[k]) {
                    lemma_digits_value_grows(d, i - start + 1, d.len() as int);
                    assert(d.take(d.len() as int) =~= d);
                }
            }
            return None;
        }
        value = next;
        i = i + 1;
    }
    assert(d.take(d.len() as int) =~= d);
    Some(value as u16)
}

/// The port that the line `s[a..b]` reports, if any.
fn port_of_line(
    s: &Vec<char>,
    a: usize,
    b: usize,
    state: &Vec<char>,
    proto: &Vec<char>,
    active: &Vec<char>,
) -> (r: Option<u16>)
    requires
        a <= b <= s@.len(),
        state@ == "State"@,
        proto@ == "Proto"@,
        active@ == "Active"@,
    ensures
        r == line_port(s@.subrange(a as int, b as int)),
{
    let bs = field_bounds(s, a, b);
    let ghost f = fields(s@.subrange(a as int, b as int));
    if bs.len() == 0 {
        return None;
    }
    let (fa, fb) = bs[0];
    assert(f[0] == s@.subrange(fa as int, fb as int));
    if range_starts_with(s, fa, fb, state) || range_starts_with(s, fa, fb, proto)
        || range_starts_with(s, fa, fb, active) {
        return None;
    }
    if bs.len() < 4 {
        return None;
    }
    let (ca, cb) = bs[3];
    assert(f[3] == s@.subrange(ca as int, cb as int));
    let t = colon_tail_start(s, ca, cb);
    parse_port(s, t, cb)
}

/// The set of ports that the output of `ss -tlnp` or `netstat -tlnp` reports
/// as listening.
pub fn parse_listening_ports(output: &str) -> (ports: HashSet<u16>)
    ensures
        ports@ == listening_ports(output@),
{
    let s = chars_of(output);
    let state = chars_of("State");
    let proto = chars_of("Proto");
    let active = chars_of("Active");
    let mut ports: HashSet<u16> = HashSet::new();
    let mut pos: usize = 0;
    assert(s@.skip(0) =~= s@);
    assert(ports@.union(listening_ports(s@)) =~= listening_ports(s@));
    let mut done = false;
    while !done
        invariant
            s@ == output@,
            state@ == "State"@,
            proto@ == "Proto"@,
            active@ == "Active"@,
            pos <= s@.len(),
            done ==> ports@ == listening_ports(s@),
            !done ==> listening_ports(s@) == ports@.union(listening_ports(s@.skip(pos as int))),
        decreases s@.len() - pos + (if done { 0int } else { 1int }),
    {
        let ghost rest = s@.skip(pos as int);
        let mut e = pos;
        while e < s.len() && s[e] != '\n'
            invariant
                pos <= e <= s@.len(),
                rest == s@.skip(pos as int),
                line_end(rest) == (e - pos) + line_end(s@.skip(e as int)),
            decreases s@.len() - e,
        {
            assert(s@.skip(e as int).drop_first() =~= s@.skip(e + 1));
            e = e + 1;
        }
        assert(line_end(rest) == e - pos);
        assert(rest.take(e - pos) =~= s@.subrange(pos as int, e as int));
        let found = port_of_line(&s, pos, e, &state, &proto, &active);
        let ghost here = match line_port(rest.take(e - pos)) {
            Some(p) => set![p],
            None => Set::<u16>::empty(),
        };
        let ghost before = ports@;
        if let Some(p) = found {
            ports.insert(p);
        }
        assert(ports@ =~= before.union(here));
        if e < s.len() {
            assert(rest.skip(e - pos + 1) =~= s@.skip(e + 1));
            assert(ports@.union(listening_ports(s@.skip(e + 1))) =~= before.union(
                listening_ports(rest),
            ));
            pos = e + 1;
        } else {
            assert(ports@ =~= before.union(listening_ports(rest)));
            done = true;
        }
    }
    ports
}

} // verus!
