//! Text helpers: equality of text, joining, and decimal numerals.
use vstd::prelude::*;
use vstd::string::StringExecFns;

verus! {

/// The character of a decimal digit.
pub open spec fn digit_char(d: nat) -> char {
    if d == 0 {
        '0'
    } else if d == 1 {
        '1'
    } else if d == 2 {
        '2'
    } else if d == 3 {
        '3'
    } else if d == 4 {
        '4'
    } else if d == 5 {
        '5'
    } else if d == 6 {
        '6'
    } else if d == 7 {
        '7'
    } else if d == 8 {
        '8'
    } else {
        '9'
    }
}

/// The decimal numeral of `n`, without leading zeros.
pub open spec fn decimal(n: nat) -> Seq<char>
    decreases n,
{
    if n < 10 {
        seq![digit_char(n)]
    } else {
        decimal(n / 10).push(digit_char(n % 10))
    }
}

fn digit_text(d: u64) -> (r: &'static str)
    requires
        d < 10,
    ensures
        r@ == seq![digit_char(d as nat)],
{
    proof {
        reveal_strlit("0");
        reveal_strlit("1");
        reveal_strlit("2");
        reveal_strlit("3");
        reveal_strlit("4");
        reveal_strlit("5");
        reveal_strlit("6");
        reveal_strlit("7");
        reveal_strlit("8");
        reveal_strlit("9");
    }
    let r: &'static str = match d {
        0 => "0",
        1 => "1",
        2 => "2",
        3 => "3",
        4 => "4",
        5 => "5",
        6 => "6",
        7 => "7",
        8 => "8",
        _ => "9",
    };
    assert(r@ =~= seq![digit_char(d as nat)]);
    r
}

/// Writes `n` as a decimal numeral.
pub fn decimal_text(n: u64) -> (r: String)
    ensures
        r@ == decimal(n as nat),
    decreases n,
{
    if n < 10 {
        digit_text(n).to_string()
    } else {
        let head = decimal_text(n / 10);
        let r = head.concat(digit_text(n % 10));
        assert(r@ =~= decimal(n as nat));
        r
    }
}

/// Tells whether two pieces of text are the same.
pub fn same_text(a: &str, b: &str) -> (r: bool)
    ensures
        r == (a@ == b@),
{
    let x = a.to_string();
    let y = b.to_string();
    x == y
}

/// Puts `b` behind `a`.
pub fn joined(a: &str, b: &str) -> (r: String)
    ensures
        r@ == a@ + b@,
{
    a.to_string().concat(b)
}

/// The texts of `parts` in order, with `separator` between neighbours.
pub open spec fn join_spec(parts: Seq<Seq<char>>, separator: Seq<char>) -> Seq<char>
    decreases parts.len(),
{
    if parts.len() == 0 {
        Seq::empty()
    } else if parts.len() == 1 {
        parts[0]
    } else {
        join_spec(parts.drop_last(), separator) + separator + parts.last()
    }
}

/// The views of a sequence of strings.
pub open spec fn views(parts: Seq<String>) -> Seq<Seq<char>> {
    Seq::new(parts.len(), |i: int| parts[i]@)
}

/// Joins `parts` with `separator` between neighbours.
pub fn join(parts: &Vec<String>, separator: &str) -> (r: String)
    ensures
        r@ == join_spec(views(parts@), separator@),
{
    let mut out = String::new();
    let mut i: usize = 0;
    proof {
        assert(views(parts@).take(0) =~= Seq::<Seq<char>>::empty());
        reveal_strlit("");
        assert(out@ =~= Seq::<char>::empty());
    }
    while i < parts.len()
        invariant
            i <= parts.len(),
            out@ == join_spec(views(parts@).take(i as int), separator@),
        decreases parts.len() - i,
    {
        let ghost before = views(parts@).take(i as int);
        let ghost after = views(parts@).take(i + 1);
        if i > 0 {
            out.append(separator);
        }
        out.append(parts[i].as_str());
        proof {
            assert(after.drop_last() =~= before);
            assert(after.last() == parts[i as int]@);
            if i == 0 {
                assert(out@ =~= after[0]);
            } else {
                assert(out@ =~= join_spec(before, separator@) + separator@ + after.last());
            }
        }
        i += 1;
    }
    proof {
        assert(views(parts@).take(i as int) =~= views(parts@));
    }
    out
}

/// The number that a numeral stands for.
pub open spec fn numeral_value(s: Seq<char>) -> int
    decreases s.len(),
{
    if s.len() == 0 {
        0
    } else {
        10 * numeral_value(s.drop_last()) + (s.last() as int - '0' as int)
    }
}

/// The numeral of a number consists of digits and stands for the number, so no two numbers
/// have the same.
pub proof fn numerals_stand_for_their_numbers(n: nat)
    ensures
        numeral_value(decimal(n)) == n,
        decimal(n).len() > 0,
        forall|i: int| 0 <= i < decimal(n).len() ==> '0' <= #[trigger] decimal(n)[i] <= '9',
        n > 0 ==> decimal(n)[0] != '0',
    decreases n,
{
    let s = decimal(n);
    if n >= 10 {
        numerals_stand_for_their_numbers(n / 10);
        assert(s.drop_last() =~= decimal(n / 10));
    } else {
        assert(s.drop_last() =~= Seq::empty());
        assert(numeral_value(s.drop_last()) == 0);
    }
}

/// Joined texts follow one another in order, with the separator between any two.
pub proof fn joining_keeps_the_order(parts: Seq<Seq<char>>, separator: Seq<char>, last: Seq<char>)
    ensures
        join_spec(Seq::empty(), separator).len() == 0,
        join_spec(seq![last], separator) == last,
        parts.len() > 0 ==> join_spec(parts.push(last), separator) == join_spec(parts, separator)
            + separator + last,
{
    assert(parts.push(last).drop_last() =~= parts);
}

} // verus!
