//! The leaf values of the engine: a cell, the topology selector, the
//! birth/survival rule set, and the engine's error type.

use vstd::prelude::*;

verus! {

/// A single grid cell: dead or alive.
#[derive(Clone, Copy, Debug, PartialEq, Eq, Structural)]
pub enum Cell {
    Dead,
    Alive,
}

/// The numeric projection of a cell: Dead is 0, Alive is 1.
/// Neighbour counts are sums of this value.
pub open spec fn cell_value(c: Cell) -> nat {
    if c is Alive {
        1
    } else {
        0
    }
}

/// The opposite state of a cell.
pub open spec fn flipped(c: Cell) -> Cell {
    if c is Alive {
        Cell::Dead
    } else {
        Cell::Alive
    }
}

impl Cell {
    /// Numeric projection used for neighbour summation: Dead is 0, Alive is 1.
    pub fn value(&self) -> (r: u8)
        ensures
            r as nat == cell_value(*self),
    {
        match self {
            Cell::Alive => 1,
            Cell::Dead => 0,
        }
    }

    /// Flips the cell: Dead becomes Alive and Alive becomes Dead.
    pub fn toggle(&mut self)
        ensures
            *final(self) == flipped(*old(self)),
    {
        *self = match *self {
            Cell::Alive => Cell::Dead,
            Cell::Dead => Cell::Alive,
        };
    }
}

/// Flipping a cell twice returns it to its original state.
pub proof fn lemma_flip_involution(c: Cell)
    ensures
        flipped(flipped(c)) == c,
{
}

/// The adjacency scheme a grid uses for neighbour counting.
#[derive(Clone, Copy, Debug, PartialEq, Eq, Structural)]
pub enum CellFormFactor {
    Triangle,
    Square,
    Hexagon,
}

/// Every failure the engine reports.
#[derive(Clone, Copy, Debug, PartialEq, Eq, Structural)]
pub enum LifeError {
    /// A rule string held a character that is not a decimal digit.
    InvalidRuleSpec,
    /// A coordinate-addressed operation was given a coordinate at or past
    /// the grid dimensions.
    OutOfBounds,
}

/// Whether a character is a decimal digit.
pub open spec fn is_digit_char(c: char) -> bool {
    c == '0' || c == '1' || c == '2' || c == '3' || c == '4' || c == '5' || c == '6' || c == '7'
        || c == '8' || c == '9'
}

/// Whether every character of a string is a decimal digit.
pub open spec fn all_digit_chars(s: Seq<char>) -> bool {
    forall|i: int| 0 <= i < s.len() ==> is_digit_char(#[trigger] s[i])
}

/// The digit value of a decimal digit character; characters outside
/// '0'..='9' are mapped to 9 and never arise under `is_digit_char`.
pub open spec fn digit_of_char(c: char) -> u8 {
    if c == '0' {
        0
    } else if c == '1' {
        1
    } else if c == '2' {
        2
    } else if c == '3' {
        3
    } else if c == '4' {
        4
    } else if c == '5' {
        5
    } else if c == '6' {
        6
    } else if c == '7' {
        7
    } else if c == '8' {
        8
    } else {
        9
    }
}

/// The decimal digit character of a value in 0..=9; larger values are
/// mapped to '9' and never arise under `digits_wf`.
pub open spec fn char_of_digit(d: u8) -> char {
    if d == 0 {
        '0'
    } else if d == 1 {
        '1'
    } else if d == 2 {
        '2'
    } else if d == 3 {
        '3'
    } else if d == 4 {
        '4'
    } else if d == 5 {
        '5'
    } else if d == 6 {
        '6'
    } else if d == 7 {
        '7'
    } else if d == 8 {
        '8'
    } else {
        '9'
    }
}

/// The digit values of a digit string, one entry per character, in order.
pub open spec fn digits_of_chars(s: Seq<char>) -> Seq<u8> {
    Seq::new(s.len(), |i: int| digit_of_char(s[i]))
}

/// The digit characters of a sequence of digit values, in order.
pub open spec fn chars_of_digits(d: Seq<u8>) -> Seq<char> {
    Seq::new(d.len(), |i: int| char_of_digit(d[i]))
}

/// Whether every entry of a rule sequence is a single decimal digit.
pub open spec fn digits_wf(d: Seq<u8>) -> bool {
    forall|i: int| 0 <= i < d.len() ==> #[trigger] d[i] <= 9
}

/// Whether a neighbour count is named by a rule sequence.
pub open spec fn rule_applies(rules: Seq<u8>, n: nat) -> bool {
    exists|k: int| 0 <= k < rules.len() && #[trigger] rules[k] as nat == n
}

/// Parsing a digit string and rendering the digits back returns the
/// original string, in the original order, with duplicates preserved.
pub proof fn lemma_digits_round_trip(s: Seq<char>)
    requires
        all_digit_chars(s),
    ensures
        chars_of_digits(digits_of_chars(s)) == s,
{
    let t = chars_of_digits(digits_of_chars(s));
    assert forall|i: int| 0 <= i < s.len() implies t[i] == s[i] by {
        assert(is_digit_char(s[i]));
    }
    assert(t =~= s);
}

/// The digit values read from a digit string are all single digits.
pub proof fn lemma_parsed_digits_wf(s: Seq<char>)
    ensures
        digits_wf(digits_of_chars(s)),
{
}

/// The decimal digit value of one character, or `InvalidRuleSpec` for a
/// character that is not a digit.
fn digit_of(c: char) -> (r: Result<u8, LifeError>)
    ensures
        is_digit_char(c) ==> r == Ok::<u8, LifeError>(digit_of_char(c)),
        !is_digit_char(c) ==> r == Err::<u8, LifeError>(LifeError::InvalidRuleSpec),
{
    match c {
        '0' => Ok(0),
        '1' => Ok(1),
        '2' => Ok(2),
        '3' => Ok(3),
        '4' => Ok(4),
        '5' => Ok(5),
        '6' => Ok(6),
        '7' => Ok(7),
        '8' => Ok(8),
        '9' => Ok(9),
        _ => Err(LifeError::InvalidRuleSpec),
    }
}

/// The one-character string of a digit value.
fn digit_str(d: u8) -> (r: &'static str)
    requires
        d <= 9,
    ensures
        r@ =~= seq![char_of_digit(d)],
{
    proof {
        reveal_strlit("0");
        reveal_strlit("1");
        reveal_strlit("2");
        reveal_strlit("3");
        reveal_strlit("4");
        reveal_strlit("5");
        reveal_strlit("6");
        reveal_strlit("7");
        reveal_strlit("8");
        reveal_strlit("9");
    }
    match d {
        0 => "0",
        1 => "1",
        2 => "2",
        3 => "3",
        4 => "4",
        5 => "5",
        6 => "6",
        7 => "7",
        8 => "8",
        _ => "9",
    }
}

/// Reads a digit string into one digit value per character, in input
/// order, or reports `InvalidRuleSpec` on the first non-digit character.
fn parse_digit_string(s: &str) -> (r: Result<Vec<u8>, LifeError>)
    ensures
        all_digit_chars(s@) ==> (r matches Ok(v) && v@ == digits_of_chars(s@)),
        !all_digit_chars(s@) ==> r == Err::<Vec<u8>, LifeError>(LifeError::InvalidRuleSpec),
{
    let n = s.unicode_len();
    let mut out: Vec<u8> = Vec::new();
    let mut i: usize = 0;
    while i < n
        invariant
            n == s@.len(),
            i <= n,
            out@.len() == i,
            forall|j: int| 0 <= j < i ==> is_digit_char(#[trigger] s@[j]),
            forall|j: int| 0 <= j < i ==> #[trigger] out@[j] == digit_of_char(s@[j]),
        decreases n - i,
    {
        let c = s.get_char(i);
        match digit_of(c) {
            Ok(d) => {
                out.push(d);
            },
            Err(e) => {
                proof {
                    assert(!is_digit_char(s@[i as int]));
                }
                return Err(e);
            },
        }
        i = i + 1;
    }
    proof {
        assert(out@ =~= digits_of_chars(s@));
    }
    Ok(out)
}

/// Renders digit values back as a string, one character per digit, in
/// order, with no deduplication and no sorting.
fn render_digit_string(d: &Vec<u8>) -> (r: String)
    requires
        digits_wf(d@),
    ensures
        r@ == chars_of_digits(d@),
{
    let mut out = String::new();
    let n = d.len();
    let mut i: usize = 0;
    while i < n
        invariant
            n == d@.len(),
            i <= n,
            digits_wf(d@),
            out@.len() == i,
            forall|j: int| 0 <= j < i ==> #[trigger] out@[j] == char_of_digit(d@[j]),
        decreases n - i,
    {
        let s = digit_str(d[i]);
        out.append(s);
        i = i + 1;
    }
    proof {
        assert(out@ =~= chars_of_digits(d@));
    }
    out
}

/// Whether a rule sequence holds a given neighbour count.
fn digits_contain(v: &Vec<u8>, x: u8) -> (r: bool)
    ensures
        r == rule_applies(v@, x as nat),
{
    let n = v.len();
    let mut i: usize = 0;
    while i < n
        invariant
            n == v@.len(),
            i <= n,
            forall|k: int| 0 <= k < i ==> #[trigger] v@[k] != x,
        decreases n - i,
    {
        if v[i] == x {
            return true;
        }
        i = i + 1;
    }
    false
}

/// The birth and survival thresholds of the automaton: two ordered
/// sequences of digit values, one entry per digit of the strings they
/// were read from, duplicates preserved.
#[derive(Clone, Debug, PartialEq, Eq)]
pub struct LifeRules {
    born: Vec<u8>,
    survives: Vec<u8>,
}

impl LifeRules {
    /// The neighbour counts that bring a dead cell to life.
    pub closed spec fn spec_born(self) -> Seq<u8> {
        self.born@
    }

    /// The neighbour counts that keep a live cell alive.
    pub closed spec fn spec_survives(self) -> Seq<u8> {
        self.survives@
    }

    /// Every entry of both sequences is a single decimal digit, as the
    /// digit-string origin of a rule set demands.
    pub open spec fn wf(self) -> bool {
        digits_wf(self.spec_born()) && digits_wf(self.spec_survives())
    }

    /// Builds a rule set directly from digit values.
    pub fn new(born: Vec<u8>, survives: Vec<u8>) -> (r: LifeRules)
        requires
            digits_wf(born@),
            digits_wf(survives@),
        ensures
            r.spec_born() == born@,
            r.spec_survives() == survives@,
            r.wf(),
    {
        LifeRules { born, survives }
    }

    /// Reads a rule set from two digit strings, one digit value per
    /// character, in input order; any non-digit character makes the whole
    /// call fail with `InvalidRuleSpec`.
    pub fn parse(born: &str, survives: &str) -> (r: Result<LifeRules, LifeError>)
        ensures
            all_digit_chars(born@) && all_digit_chars(survives@) ==> (r matches Ok(rules)
                && rules.spec_born() == digits_of_chars(born@) && rules.spec_survives()
                == digits_of_chars(survives@) && rules.wf()),
            !(all_digit_chars(born@) && all_digit_chars(survives@)) ==> r == Err::<
                LifeRules,
                LifeError,
            >(LifeError::InvalidRuleSpec),
    {
        let b = parse_digit_string(born)?;
        let s = parse_digit_string(survives)?;
        proof {
            lemma_parsed_digits_wf(born@);
            lemma_parsed_digits_wf(survives@);
        }
        Ok(LifeRules { born: b, survives: s })
    }

    /// The birth thresholds, as stored.
    pub fn get_born(&self) -> (r: &Vec<u8>)
        ensures
            r@ == self.spec_born(),
    {
        &self.born
    }

    /// The survival thresholds, as stored.
    pub fn get_survives(&self) -> (r: &Vec<u8>)
        ensures
            r@ == self.spec_survives(),
    {
        &self.survives
    }

    /// Whether a dead cell with this many live neighbours is born.
    pub fn is_born(&self, count: u8) -> (r: bool)
        ensures
            r == rule_applies(self.spec_born(), count as nat),
    {
        digits_contain(&self.born, count)
    }

    /// Whether a live cell with this many live neighbours survives.
    pub fn is_survivor(&self, count: u8) -> (r: bool)
        ensures
            r == rule_applies(self.spec_survives(), count as nat),
    {
        digits_contain(&self.survives, count)
    }

    /// The birth digits rendered back as a string, in original order.
    pub fn born_digits(&self) -> (r: String)
        requires
            self.wf(),
        ensures
            r@ == chars_of_digits(self.spec_born()),
    {
        render_digit_string(&self.born)
    }

    /// The survival digits rendered back as a string, in original order.
    pub fn survives_digits(&self) -> (r: String)
        requires
            self.wf(),
        ensures
            r@ == chars_of_digits(self.spec_survives()),
    {
        render_digit_string(&self.survives)
    }

    /// The canonical display form of the rule set: `B<digits>/S<digits>`.
    pub fn rule_string(&self) -> (r: String)
        requires
            self.wf(),
        ensures
            r@ == seq!['B'] + chars_of_digits(self.spec_born()) + seq!['/', 'S']
                + chars_of_digits(self.spec_survives()),
    {
        proof {
            reveal_strlit("B");
            reveal_strlit("/S");
        }
        let mut out = String::from_str("B");
        let b = self.born_digits();
        out.append(b.as_str());
        out.append("/S");
        let s = self.survives_digits();
        out.append(s.as_str());
        proof {
            assert(out@ =~= seq!['B'] + chars_of_digits(self.spec_born()) + seq!['/', 'S']
                + chars_of_digits(self.spec_survives()));
        }
        out
    }
}

/// Round trip of a whole rule set: rule strings made of decimal digits,
/// once parsed, render back to the very strings they were parsed from.
pub proof fn lemma_rules_round_trip(born: Seq<char>, survives: Seq<char>)
    requires
        all_digit_chars(born),
        all_digit_chars(survives),
    ensures
        chars_of_digits(digits_of_chars(born)) == born,
        chars_of_digits(digits_of_chars(survives)) == survives,
{
    lemma_digits_round_trip(born);
    lemma_digits_round_trip(survives);
}

} // verus!
