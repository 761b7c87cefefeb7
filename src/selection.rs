use vstd::prelude::*;

verus! {

/// Characters with the Unicode `White_Space` property, which `str::trim`
/// removes.
pub open spec fn is_space(c: char) -> bool {
    let n = c as u32;
    (9 <= n <= 13) || n == 32 || n == 0x85 || n == 0xA0 || n == 0x1680 || (0x2000 <= n
        <= 0x200A) || n == 0x2028 || n == 0x2029 || n == 0x202F || n == 0x205F || n == 0x3000
}

pub open spec fn trim_start(s: Seq<char>) -> Seq<char>
    decreases s.len(),
{
    if s.len() > 0 && is_space(s[0]) {
        trim_start(s.skip(1))
    } else {
        s
    }
}

pub open spec fn trim_end(s: Seq<char>) -> Seq<char>
    decreases s.len(),
{
    if s.len() > 0 && is_space(s.last()) {
        trim_end(s.drop_last())
    } else {
        s
    }
}

/// The text without leading and trailing white space.
pub open spec fn trim(s: Seq<char>) -> Seq<char> {
    trim_end(trim_start(s))
}

pub open spec fn is_digit(c: char) -> bool {
    48 <= c as u32 <= 57
}

pub open spec fn all_digits(d: Seq<char>) -> bool {
    forall|i: int| 0 <= i < d.len() ==> is_digit(#[trigger] d[i])
}

/// The number that a run of decimal digits writes.
pub open spec fn digits_value(d: Seq<char>) -> nat
    decreases d.len(),
{
    if d.len() == 0 {
        0
    } else {
        digits_value(d.drop_last()) * 10 + (d.last() as u32 - 48) as nat
    }
}

/// A `usize` as Rust parses it: an optional `+`, then one or more decimal
/// digits whose value fits.
pub open spec fn parse_usize(t: Seq<char>) -> Option<nat> {
    let d = if t.len() > 0 && t[0] == '+' {
        t.skip(1)
    } else {
        t
    };
    if d.len() > 0 && all_digits(d) && digits_value(d) <= usize::MAX {
        Some(digits_value(d))
    } else {
        None
    }
}

/// The comma-separated fields of the text; there is always at least one.
pub open spec fn split_commas(s: Seq<char>) -> Seq<Seq<char>>
    decreases s.len(),
{
    if s.len() == 0 {
        seq![Seq::empty()]
    } else {
        let rest = split_commas(s.drop_last());
        if s.last() == ',' {
            rest.push(Seq::empty())
        } else {
            rest.update(rest.len() - 1, rest.last().push(s.last()))
        }
    }
}

/// The zero-based port index that one field chooses, if any: a one-based
/// number between 1 and `count`.
pub open spec fn field_choice(field: Seq<char>, count: nat) -> Option<nat> {
    match parse_usize(trim(field)) {
        Some(v) => if 1 <= v <= count {
            Some((v - 1) as nat)
        } else {
            None
        },
        None => None,
    }
}

pub open spec fn choices(fields: Seq<Seq<char>>, count: nat) -> Seq<usize>
    decreases fields.len(),
{
    if fields.len() == 0 {
        Seq::empty()
    } else {
        let rest = choices(fields.drop_last(), count);
        match field_choice(fields.last(), count) {
            Some(i) => rest.push(i as usize),
            None => rest,
        }
    }
}

/// The ports that an operator's answer chooses, in the order written.
pub open spec fn selection(input: Seq<char>, count: nat) -> Seq<usize> {
    choices(split_commas(input), count)
}

proof fn lemma_digits_grow(d: Seq<char>, j: int)
    requires
        0 <= j <= d.len(),
    ensures
        digits_value(d) >= digits_value(d.take(j)),
    decreases d.len() - j,
{
    if j < d.len() {
        lemma_digits_grow(d, j + 1);
        assert(d.take(j + 1).drop_last() =~= d.take(j));
        assert(digits_value(d.take(j + 1)) == digits_value(d.take(j)) * 10 + (d.take(j + 1).last()
            as u32 - 48) as nat);
    } else {
        assert(d.take(j) =~= d);
    }
}

fn trimmed_bounds(t: &Vec<char>) -> (r: (usize, usize))
    ensures
        r.0 <= r.1 <= t@.len(),
        trim(t@) == t@.subrange(r.0 as int, r.1 as int),
{
    let mut a: usize = 0;
    assert(t@.skip(0) =~= t@);
    while a < t.len() && is_space_exec(t[a])
        invariant
            a <= t@.len(),
            trim_start(t@) == trim_start(t@.skip(a as int)),
        decreases t.len() - a,
    {
        assert(t@.skip(a as int).skip(1) =~= t@.skip(a + 1));
        a = a + 1;
    }
    let ghost st = t@.skip(a as int);
    assert(trim_start(st) == st);
    let mut b: usize = t.len();
    while b > a && is_space_exec(t[b - 1])
        invariant
            a <= b <= t@.len(),
            st == t@.skip(a as int),
            trim_end(st) == trim_end(t@.subrange(a as int, b as int)),
        decreases b,
    {
        assert(t@.subrange(a as int, b as int).drop_last() =~= t@.subrange(a as int, b - 1));
        b = b - 1;
    }
    assert(st =~= t@.subrange(a as int, t.len() as int));
    (a, b)
}

fn is_space_exec(c: char) -> (r: bool)
    ensures
        r == is_space(c),
{
    let n = c as u32;
    (9 <= n && n <= 13) || n == 32 || n == 0x85 || n == 0xA0 || n == 0x1680 || (0x2000 <= n
        && n <= 0x200A) || n == 0x2028 || n == 0x2029 || n == 0x202F || n == 0x205F || n
        == 0x3000
}

fn parse_field(t: &Vec<char>, count: usize) -> (r: Option<usize>)
    ensures
        r == (match field_choice(t@, count as nat) {
            Some(i) => Some(i as usize),
            None => None,
        }),
{
    let (a0, b) = trimmed_bounds(t);
    let ghost tr = t@.subrange(a0 as int, b as int);
    let mut a = a0;
    if a < b && t[a] == '+' {
        a = a + 1;
    }
    let ghost d = t@.subrange(a as int, b as int);
    assert(d =~= (if tr.len() > 0 && tr[0] == '+' {
        tr.skip(1)
    } else {
        tr
    }));
    if a == b {
        return None;
    }
    let mut value: usize = 0;
    let mut i: usize = a;
    while i < b
        invariant
            a <= i <= b <= t@.len(),
            d == t@.subrange(a as int, b as int),
            tr == trim(t@),
            d == (if tr.len() > 0 && tr[0] == '+' {
                tr.skip(1)
            } else {
                tr
            }),
            value == digits_value(d.take(i - a)),
            forall|k: int| 0 <= k < i - a ==> is_digit(#[trigger] d[k]),
        decreases b - i,
    {
        let c = t[i];
        let n = c as u32;
        assert(d[i - a] == c);
        if n < 48 || n > 57 {
            assert(!is_digit(d[i - a]));
            assert(!all_digits(d));
            assert(parse_usize(tr) is None);
            return None;
        }
        let digit = (n - 48) as usize;
        assert(d.take(i - a + 1).drop_last() =~= d.take(i - a));
        assert(d.take(i - a + 1).last() == c);
        assert(digits_value(d.take(i - a + 1)) == value * 10 + digit);
        if value > (usize::MAX - digit) / 10 {
            proof {
                lemma_digits_grow(d, i - a + 1);
                assert(value * 10 + digit > usize::MAX) by (nonlinear_arith)
                    requires
                        value > (usize::MAX - digit) / 10,
                        digit <= 9,
                ;
                assert(digits_value(d) > usize::MAX);
                assert(parse_usize(tr) is None);
            }
            return None;
        }
        assert(value * 10 + digit <= usize::MAX) by (nonlinear_arith)
            requires
                value <= (usize::MAX - digit) / 10,
                digit <= 9,
        ;
        value = value * 10 + digit;
        i = i + 1;
    }
    assert(d.take(d.len() as int) =~= d);
    if 1 <= value && value <= count {
        Some(value - 1)
    } else {
        None
    }
}

/// Reads an operator's answer: comma-separated one-based port numbers, each
/// with optional white space around it. Fields that are not numbers or are
/// out of range are skipped; the rest become zero-based indices, in order.
pub fn select_ports(input: &str, count: usize) -> (r: Vec<usize>)
    ensures
        r@ == selection(input@, count as nat),
        forall|k: int| 0 <= k < r@.len() ==> r@[k] < count,
{
    let n: usize = input.unicode_len();
    let mut out: Vec<usize> = Vec::new();
    let mut field: Vec<char> = Vec::new();
    let mut i: usize = 0;
    while i < n
        invariant
            n == input@.len(),
            i <= n,
            split_commas(input@.take(i as int)).len() >= 1,
            out@ == choices(split_commas(input@.take(i as int)).drop_last(), count as nat),
            field@ == split_commas(input@.take(i as int)).last(),
        decreases n - i,
    {
        let c = input.get_char(i);
        let ghost before = split_commas(input@.take(i as int));
        assert(input@.take(i + 1).drop_last() =~= input@.take(i as int));
        if c == ',' {
            let choice = parse_field(&field, count);
            match choice {
                Some(k) => out.push(k),
                None => {},
            }
            field = Vec::new();
            assert(split_commas(input@.take(i + 1)).drop_last() =~= before);
            assert(before =~= before.drop_last().push(before.last()));
        } else {
            field.push(c);
            assert(split_commas(input@.take(i + 1)).drop_last() =~= before.drop_last());
        }
        i = i + 1;
    }
    assert(input@.take(n as int) =~= input@);
    let ghost all = split_commas(input@);
    let choice = parse_field(&field, count);
    match choice {
        Some(k) => out.push(k),
        None => {},
    }
    assert(all =~= all.drop_last().push(all.last()));
    proof {
        lemma_choices_in_range(all, count as nat);
    }
    out
}

proof fn lemma_choices_in_range(fields: Seq<Seq<char>>, count: nat)
    ensures
        forall|k: int|
            0 <= k < choices(fields, count).len() ==> #[trigger] choices(fields, count)[k] < count,
    decreases fields.len(),
{
    if fields.len() > 0 {
        lemma_choices_in_range(fields.drop_last(), count);
        let rest = choices(fields.drop_last(), count);
        match field_choice(fields.last(), count) {
            Some(i) => {
                assert(choices(fields, count) == rest.push(i as usize));
                assert forall|k: int| 0 <= k < choices(fields, count).len() implies #[trigger] choices(
                    fields,
                    count,
                )[k] < count by {
                    if k < rest.len() {
                        assert(choices(fields, count)[k] == rest[k]);
                    }
                }
            },
            None => {},
        }
    }
}

} // verus!
