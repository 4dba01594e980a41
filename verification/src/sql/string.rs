//! The low-level representation of a SQL query: text and positional parameters.
use vstd::prelude::*;

verus! {

/// The character of the decimal digit `d`.
pub open spec fn digit_char(d: nat) -> char {
    if d == 0 {
        '0'
    } else if d == 1 {
        '1'
    } else if d == 2 {
        '2'
    } else if d == 3 {
        '3'
    } else if d == 4 {
        '4'
    } else if d == 5 {
        '5'
    } else if d == 6 {
        '6'
    } else if d == 7 {
        '7'
    } else if d == 8 {
        '8'
    } else {
        '9'
    }
}

/// The decimal representation of a natural number, without leading zeros.
pub open spec fn nat_text(n: nat) -> Seq<char>
    decreases n,
{
    if n < 10 {
        seq![digit_char(n)]
    } else {
        nat_text(n / 10).push(digit_char(n % 10))
    }
}

/// `c` is a decimal digit.
pub open spec fn is_digit(c: char) -> bool {
    '0' <= c <= '9'
}

/// The decimal representation of a natural number is made of digits only, one at least.
pub proof fn lemma_nat_text_digits(n: nat)
    ensures
        nat_text(n).len() >= 1,
        n >= 10 ==> nat_text(n).len() >= 2,
        forall|i: int| 0 <= i < nat_text(n).len() ==> is_digit(#[trigger] nat_text(n)[i]),
    decreases n,
{
    if n >= 10 {
        lemma_nat_text_digits(n / 10);
        let prefix = nat_text(n / 10);
        assert forall|i: int| 0 <= i < nat_text(n).len() implies is_digit(
            #[trigger] nat_text(n)[i],
        ) by {
            if i < prefix.len() {
                assert(nat_text(n)[i] == prefix[i]);
            }
        }
    }
}

/// The number that a run of decimal digits denotes, read from left to right.
pub open spec fn numeral_value(s: Seq<char>) -> int
    decreases s.len(),
{
    if s.len() == 0 {
        0
    } else {
        numeral_value(s.drop_last()) * 10 + (s.last() as int - '0' as int)
    }
}

/// `s` is a non-empty run of decimal digits.
pub open spec fn is_numeral(s: Seq<char>) -> bool {
    s.len() > 0 && forall|i: int| 0 <= i < s.len() ==> is_digit(#[trigger] s[i])
}

/// The decimal representation of a number is a run of digits that denotes the number.
pub proof fn lemma_nat_text_value(n: nat)
    ensures
        is_numeral(nat_text(n)),
        numeral_value(nat_text(n)) == n,
    decreases n,
{
    lemma_nat_text_digits(n);
    let d = n % 10;
    assert(digit_char(d) as int - '0' as int == d) by {
        assert('1' as int == '0' as int + 1);
        assert('2' as int == '0' as int + 2);
        assert('3' as int == '0' as int + 3);
        assert('4' as int == '0' as int + 4);
        assert('5' as int == '0' as int + 5);
        assert('6' as int == '0' as int + 6);
        assert('7' as int == '0' as int + 7);
        assert('8' as int == '0' as int + 8);
        assert('9' as int == '0' as int + 9);
    }
    if n >= 10 {
        lemma_nat_text_value(n / 10);
        assert(nat_text(n).drop_last() =~= nat_text(n / 10));
        assert(nat_text(n).last() == digit_char(d));
        assert(numeral_value(nat_text(n)) == numeral_value(nat_text(n / 10)) * 10 + d);
        assert(n == (n / 10) * 10 + d);
    } else {
        assert(nat_text(n).drop_last() =~= Seq::<char>::empty());
        assert(nat_text(n).last() == digit_char(d));
        assert(numeral_value(nat_text(n)) == numeral_value(Seq::<char>::empty()) * 10 + d);
    }
}

/// Different natural numbers have different decimal representations.
pub proof fn lemma_nat_text_injective(m: nat, n: nat)
    requires
        nat_text(m) == nat_text(n),
    ensures
        m == n,
    decreases m,
{
    lemma_nat_text_digits(m);
    lemma_nat_text_digits(n);
    if m >= 10 && n >= 10 {
        let (a, b) = (nat_text(m), nat_text(n));
        assert(a.last() == b.last());
        assert(a.drop_last() =~= nat_text(m / 10));
        assert(b.drop_last() =~= nat_text(n / 10));
        lemma_nat_text_injective(m / 10, n / 10);
        assert(digit_char(m % 10) == digit_char(n % 10));
        assert(m % 10 == n % 10);
        assert(m == 10 * (m / 10) + m % 10);
        assert(n == 10 * (n / 10) + n % 10);
    } else if m < 10 && n < 10 {
        assert(nat_text(m)[0] == digit_char(m));
        assert(nat_text(n)[0] == digit_char(n));
        assert(digit_char(m) == digit_char(n));
        assert(m == n);
    } else {
        assert(nat_text(m).len() == nat_text(n).len());
        assert(false);
    }
}

/// The decimal representation of an integer, with a leading `-` when negative.
pub open spec fn int_text(i: int) -> Seq<char> {
    if i < 0 {
        seq!['-'] + nat_text((-i) as nat)
    } else {
        nat_text(i as nat)
    }
}

fn digit_str(d: u64) -> (s: &'static str)
    requires
        d < 10,
    ensures
        s@ == seq![digit_char(d as nat)],
{
    if d == 0 {
        proof { reveal_strlit("0"); }
        "0"
    } else if d == 1 {
        proof { reveal_strlit("1"); }
        "1"
    } else if d == 2 {
        proof { reveal_strlit("2"); }
        "2"
    } else if d == 3 {
        proof { reveal_strlit("3"); }
        "3"
    } else if d == 4 {
        proof { reveal_strlit("4"); }
        "4"
    } else if d == 5 {
        proof { reveal_strlit("5"); }
        "5"
    } else if d == 6 {
        proof { reveal_strlit("6"); }
        "6"
    } else if d == 7 {
        proof { reveal_strlit("7"); }
        "7"
    } else if d == 8 {
        proof { reveal_strlit("8"); }
        "8"
    } else {
        proof { reveal_strlit("9"); }
        "9"
    }
}

/// Render a natural number in decimal.
pub fn u64_to_text(n: u64) -> (s: String)
    ensures
        s@ == nat_text(n as nat),
    decreases n,
{
    if n < 10 {
        String::from_str(digit_str(n))
    } else {
        let mut s = u64_to_text(n / 10);
        s.append(digit_str(n % 10));
        s
    }
}

/// Render a signed integer in decimal.
pub fn i64_to_text(i: i64) -> (s: String)
    ensures
        s@ == int_text(i as int),
{
    if i < 0 {
        // the magnitude of `i64::MIN` fits in a `u64` only
        let magnitude: u64 = ((-(i + 1)) as u64) + 1;
        assert(magnitude == -(i as int));
        let digits = u64_to_text(magnitude);
        proof { reveal_strlit("-"); }
        let s = String::from_str("-");
        s.concat(digits.as_str())
    } else {
        u64_to_text(i as u64)
    }
}

/// The text of a quoted SQL identifier.
pub open spec fn quoted(name: Seq<char>) -> Seq<char> {
    seq!['"'] + name + seq!['"']
}

/// The text of the `n`-th positional parameter, `$n`.
pub open spec fn param_text(n: nat) -> Seq<char> {
    seq!['$'] + nat_text(n)
}

/// A parameter for a parameterized query.
#[derive(Debug, PartialEq, Eq)]
pub enum Param {
    /// A literal string
    String(String),
    /// A variable name to look up in the `variables` field in a `QueryRequest`.
    Variable(String),
}

impl Clone for Param {
    fn clone(&self) -> (res: Self)
        ensures
            res == *self,
    {
        match self {
            Param::String(s) => Param::String(s.clone()),
            Param::Variable(v) => Param::Variable(v.clone()),
        }
    }
}

/// A SQL query text together with its positional parameters.
///
/// `param_index` is the number of the last parameter placeholder written so far.
#[derive(Debug, PartialEq, Eq)]
pub struct SQL {
    pub sql: String,
    pub params: Vec<Param>,
    pub param_index: u64,
}

/// A DDL statement.
#[derive(Debug)]
pub struct DDL(pub SQL);

impl SQL {
    /// An empty query with no parameters.
    pub fn new() -> (res: SQL)
        ensures
            res.sql@ == Seq::<char>::empty(),
            res.params@ == Seq::<Param>::empty(),
            res.param_index == 0,
    {
        SQL { sql: String::new(), params: Vec::new(), param_index: 0 }
    }

    /// Append raw SQL syntax.
    pub fn append_syntax(&mut self, sql: &str)
        ensures
            final(self).sql@ == old(self).sql@ + sql@,
            final(self).params@ == old(self).params@,
            final(self).param_index == old(self).param_index,
    {
        self.sql.append(sql);
    }

    /// Append an identifier, surrounded by double quotes.
    pub fn append_identifier(&mut self, sql: &String)
        ensures
            final(self).sql@ == old(self).sql@ + quoted(sql@),
            final(self).params@ == old(self).params@,
            final(self).param_index == old(self).param_index,
    {
        proof { reveal_strlit("\""); }
        self.sql.append("\"");
        self.sql.append(sql.as_str());
        self.sql.append("\"");
        assert(self.sql@ =~= old(self).sql@ + quoted(sql@));
    }

    /// Append a placeholder for the next positional parameter and record the parameter.
    pub fn append_param(&mut self, param: Param)
        requires
            old(self).param_index < u64::MAX,
        ensures
            final(self).param_index == old(self).param_index + 1,
            final(self).sql@ == old(self).sql@ + param_text(final(self).param_index as nat),
            final(self).params@ == old(self).params@.push(param),
    {
        self.param_index = self.param_index + 1;
        let number = u64_to_text(self.param_index);
        proof { reveal_strlit("$"); }
        self.sql.append("$");
        self.sql.append(number.as_str());
        self.params.push(param);
        assert(self.sql@ =~= old(self).sql@ + param_text(self.param_index as nat));
    }
}

impl Default for SQL {
    fn default() -> (res: Self)
        ensures
            res.sql@ == Seq::<char>::empty(),
            res.params@ == Seq::<Param>::empty(),
            res.param_index == 0,
    {
        Self::new()
    }
}

} // verus!
