//! The filename grammar of migration scripts: `NNNN.<name>.<up|down>.sql`.
use vstd::prelude::*;
use vstd::string::{StrSliceExecFns, StringExecFns};

use crate::error::MigrationError;

verus! {

/// A migration direction.
#[derive(Debug, Clone, Copy, PartialEq, Eq, Structural)]
pub enum Direction {
    /// Applies a migration.
    Up,
    /// Reverts a migration.
    Down,
}

/// The word naming a direction in a filename.
pub open spec fn direction_text(d: Direction) -> Seq<char> {
    match d {
        Direction::Up => seq!['u', 'p'],
        Direction::Down => seq!['d', 'o', 'w', 'n'],
    }
}

/// Relies on `String::push`: appends one character at the end.
#[verifier::external_body]
pub(crate) fn push_char(s: &mut String, c: char)
    ensures
        final(s)@ == old(s)@.push(c),
{
    s.push(c)
}

impl Direction {
    /// `"up"` or `"down"`.
    pub fn to_string(&self) -> (r: String)
        ensures
            r@ == direction_text(*self),
    {
        let mut r = String::new();
        match self {
            Direction::Up => {
                push_char(&mut r, 'u');
                push_char(&mut r, 'p');
            },
            Direction::Down => {
                push_char(&mut r, 'd');
                push_char(&mut r, 'o');
                push_char(&mut r, 'w');
                push_char(&mut r, 'n');
            },
        }
        assert(r@ =~= direction_text(*self));
        r
    }
}

/// The character of a decimal digit.
pub open spec fn digit_char(d: nat) -> char {
    if d == 0 { '0' }
    else if d == 1 { '1' }
    else if d == 2 { '2' }
    else if d == 3 { '3' }
    else if d == 4 { '4' }
    else if d == 5 { '5' }
    else if d == 6 { '6' }
    else if d == 7 { '7' }
    else if d == 8 { '8' }
    else { '9' }
}

/// The value of a decimal digit character, if it is one.
pub open spec fn digit_value(c: char) -> Option<nat> {
    if c == '0' { Some(0) }
    else if c == '1' { Some(1) }
    else if c == '2' { Some(2) }
    else if c == '3' { Some(3) }
    else if c == '4' { Some(4) }
    else if c == '5' { Some(5) }
    else if c == '6' { Some(6) }
    else if c == '7' { Some(7) }
    else if c == '8' { Some(8) }
    else if c == '9' { Some(9) }
    else { None }
}

/// The decimal digits of `n`, without leading zeros.
pub open spec fn decimal(n: nat) -> Seq<char>
    decreases n,
{
    if n < 10 {
        seq![digit_char(n)]
    } else {
        decimal(n / 10).push(digit_char(n % 10))
    }
}

/// A number as it stands in a filename: four digits, zero-padded; numbers past
/// four digits are written in full.
pub open spec fn padded_number(n: nat) -> Seq<char> {
    if n < 10000 {
        seq![
            digit_char(n / 1000),
            digit_char((n / 100) % 10),
            digit_char((n / 10) % 10),
            digit_char(n % 10),
        ]
    } else {
        decimal(n)
    }
}

/// The characters a migration name may hold: `[_0-9a-zA-Z]`.
pub open spec fn is_name_char(c: char) -> bool {
    ('a' <= c && c <= 'z') || ('A' <= c && c <= 'Z') || ('0' <= c && c <= '9') || c == '_'
}

/// A name made of name characters only (possibly empty).
pub open spec fn valid_name(name: Seq<char>) -> bool {
    forall|i: int| 0 <= i < name.len() ==> is_name_char(#[trigger] name[i])
}

/// The canonical filename `NNNN.<name>.<up|down>.sql`.
pub open spec fn filename_of(number: nat, name: Seq<char>, d: Direction) -> Seq<char> {
    padded_number(number) + seq!['.'] + name + seq!['.'] + direction_text(d) + seq![
        '.',
        's',
        'q',
        'l',
    ]
}

/// `s` is the filename of the migration with this number, name and direction.
pub open spec fn parses_as(s: Seq<char>, number: nat, name: Seq<char>, d: Direction) -> bool {
    number < 10000 && valid_name(name) && s == filename_of(number, name, d)
}

/// `s` matches the filename grammar.
pub open spec fn valid_filename(s: Seq<char>) -> bool {
    exists|number: nat, name: Seq<char>, d: Direction| parses_as(s, number, name, d)
}

/// The number, name and direction that a filename stands for, if it is one.
pub open spec fn parse_spec(s: Seq<char>) -> Option<(nat, Seq<char>, Direction)> {
    if valid_filename(s) {
        Some(choose|number: nat, name: Seq<char>, d: Direction| parses_as(s, number, name, d))
    } else {
        None
    }
}

/// The decimal digit character for `d`.
fn digit_to_char(d: u16) -> (c: char)
    requires
        d < 10,
    ensures
        c == digit_char(d as nat),
{
    match d {
        0 => '0',
        1 => '1',
        2 => '2',
        3 => '3',
        4 => '4',
        5 => '5',
        6 => '6',
        7 => '7',
        8 => '8',
        _ => '9',
    }
}

/// The value of a decimal digit character.
fn char_to_digit(c: char) -> (r: Option<u16>)
    ensures
        match r {
            Some(d) => digit_value(c) == Some(d as nat) && d < 10,
            None => digit_value(c) is None,
        },
{
    match c {
        '0' => Some(0),
        '1' => Some(1),
        '2' => Some(2),
        '3' => Some(3),
        '4' => Some(4),
        '5' => Some(5),
        '6' => Some(6),
        '7' => Some(7),
        '8' => Some(8),
        '9' => Some(9),
        _ => None,
    }
}

/// Appends the filename form of `n` to `s`.
fn push_padded_number(s: &mut String, n: u16)
    ensures
        final(s)@ == old(s)@ + padded_number(n as nat),
{
    let ghost start = s@;
    if n >= 10000 {
        push_char(s, digit_to_char(n / 10000));
        proof {
            let m = n as nat;
            assert(decimal(m) == decimal(m / 10).push(digit_char(m % 10)));
            assert(decimal(m / 10) == decimal(m / 100).push(digit_char((m / 10) % 10)));
            assert(decimal(m / 100) == decimal(m / 1000).push(digit_char((m / 100) % 10)));
            assert(decimal(m / 1000) == decimal(m / 10000).push(digit_char((m / 1000) % 10)));
            assert(decimal(m / 10000) == seq![digit_char(m / 10000)]);
        }
    }
    push_char(s, digit_to_char((n / 1000) % 10));
    push_char(s, digit_to_char((n / 100) % 10));
    push_char(s, digit_to_char((n / 10) % 10));
    push_char(s, digit_to_char(n % 10));
    proof {
        let m = n as nat;
        if m < 10000 {
            assert((m / 1000) % 10 == m / 1000);
        } else {
            assert(m / 10 / 10 == m / 100);
            assert(m / 100 / 10 == m / 1000);
            assert(m / 1000 / 10 == m / 10000);
        }
        assert(s@ =~= start + padded_number(m));
    }
}

/// What a filename of the grammar holds, position by position.
proof fn lemma_filename_shape(s: Seq<char>, n: nat, name: Seq<char>, d: Direction)
    requires
        parses_as(s, n, name, d),
    ensures
        s.len() == 10 + name.len() + direction_text(d).len(),
        digit_value(s[0]) == Some(n / 1000),
        digit_value(s[1]) == Some((n / 100) % 10),
        digit_value(s[2]) == Some((n / 10) % 10),
        digit_value(s[3]) == Some(n % 10),
        n == 1000 * (n / 1000) + 100 * ((n / 100) % 10) + 10 * ((n / 10) % 10) + n % 10,
        s[4] == '.',
        forall|i: int| 0 <= i < name.len() ==> s[5 + i] == name[i],
        s[5 + name.len() as int] == '.',
        s.subrange(6 + name.len() as int, s.len() as int) == direction_text(d) + seq![
            '.',
            's',
            'q',
            'l',
        ],
{
    let tail = direction_text(d) + seq!['.', 's', 'q', 'l'];
    assert(s.subrange(6 + name.len() as int, s.len() as int) =~= tail);
    assert(n == 1000 * (n / 1000) + 100 * ((n / 100) % 10) + 10 * ((n / 10) % 10) + n % 10)
        by (nonlinear_arith)
        requires
            n < 10000,
    ;
}

/// A filename of the grammar stands for one number, name and direction only.
pub proof fn lemma_filename_unique(
    s: Seq<char>,
    n1: nat,
    name1: Seq<char>,
    d1: Direction,
    n2: nat,
    name2: Seq<char>,
    d2: Direction,
)
    requires
        parses_as(s, n1, name1, d1),
        parses_as(s, n2, name2, d2),
    ensures
        n1 == n2,
        name1 == name2,
        d1 == d2,
{
    lemma_filename_shape(s, n1, name1, d1);
    lemma_filename_shape(s, n2, name2, d2);
    if name1.len() < name2.len() {
        assert(s[5 + name1.len() as int] == name2[name1.len() as int]);
        assert(is_name_char(name2[name1.len() as int]));
    } else if name2.len() < name1.len() {
        assert(s[5 + name2.len() as int] == name1[name2.len() as int]);
        assert(is_name_char(name1[name2.len() as int]));
    }
    assert(name1 =~= name2);
    let t = s.subrange(6 + name1.len() as int, s.len() as int);
    assert(t[0] == direction_text(d1)[0]);
    assert(t[0] == direction_text(d2)[0]);
}

/// The filename that `parse` was given, as the error for a text off the grammar.
fn invalid_filename(filename: &str) -> (e: MigrationError)
    ensures
        e matches MigrationError::InvalidFilename(t) && t@ == filename@,
{
    MigrationError::InvalidFilename(filename.to_owned())
}

/// Whether `c` may stand in a migration name.
fn name_char(c: char) -> (r: bool)
    ensures
        r == is_name_char(c),
{
    (c >= 'a' && c <= 'z') || (c >= 'A' && c <= 'Z') || (c >= '0' && c <= '9') || c == '_'
}

/// Whether the characters of `s` from `start` to its end are exactly `w`.
fn tail_matches(s: &str, start: usize, w: &Vec<char>) -> (r: bool)
    requires
        start <= s@.len(),
    ensures
        r == (s@.subrange(start as int, s@.len() as int) == w@),
{
    let len = s.unicode_len();
    if len - start != w.len() {
        return false;
    }
    let mut i: usize = 0;
    while i < w.len()
        invariant
            start + w@.len() == len,
            len == s@.len(),
            i <= w@.len(),
            forall|k: int| 0 <= k < i ==> s@[start + k] == w@[k],
        decreases w@.len() - i,
    {
        if s.get_char(start + i) != w[i] {
            assert(s@.subrange(start as int, len as int)[i as int] != w@[i as int]);
            return false;
        }
        i = i + 1;
    }
    assert(s@.subrange(start as int, len as int) =~= w@);
    true
}

/// The number, name and direction that a migration filename carries.
#[derive(Debug, Clone)]
pub struct MigrationFileName {
    pub number: u16,
    pub name: String,
    pub direction: Direction,
}

impl MigrationFileName {
    /// The canonical filename of this entry.
    pub open spec fn spec_filename(&self) -> Seq<char> {
        filename_of(self.number as nat, self.name@, self.direction)
    }

    /// The entry stands for a filename of the grammar.
    pub open spec fn valid(&self) -> bool {
        self.number < 10000 && valid_name(self.name@)
    }

    /// The canonical filename: the number zero-padded to four digits, the name
    /// and the direction, separated by dots, then `.sql`.
    pub fn to_string(&self) -> (r: String)
        ensures
            r@ == self.spec_filename(),
    {
        let mut r = String::new();
        push_padded_number(&mut r, self.number);
        push_char(&mut r, '.');
        r.append(self.name.as_str());
        push_char(&mut r, '.');
        let d = self.direction.to_string();
        r.append(d.as_str());
        push_char(&mut r, '.');
        push_char(&mut r, 's');
        push_char(&mut r, 'q');
        push_char(&mut r, 'l');
        assert(r@ =~= self.spec_filename());
        r
    }

    /// Reads a filename of the grammar
    /// `^[0-9]{4}\.[_0-9a-zA-Z]*\.(up|down)\.sql$`; any other text is an
    /// `InvalidFilename`.
    pub fn parse(filename: &str) -> (r: Result<MigrationFileName, MigrationError>)
        ensures
            r is Ok <==> valid_filename(filename@),
            match r {
                Ok(f) => f.valid() && parses_as(filename@, f.number as nat, f.name@, f.direction)
                    && parse_spec(filename@) == Some((f.number as nat, f.name@, f.direction)),
                Err(e) => e matches MigrationError::InvalidFilename(t) && t@ == filename@,
            },
    {
        let ghost s = filename@;
        proof {
            lemma_valid_prefix(s);
        }
        let len = filename.unicode_len();
        if len < 12 {
            return Err(invalid_filename(filename));
        }
        let digits = (
            char_to_digit(filename.get_char(0)),
            char_to_digit(filename.get_char(1)),
            char_to_digit(filename.get_char(2)),
            char_to_digit(filename.get_char(3)),
        );
        let (a, b, c, d) = match digits {
            (Some(a), Some(b), Some(c), Some(d)) => (a, b, c, d),
            _ => {
                return Err(invalid_filename(filename));
            },
        };
        let number: u16 = a * 1000 + b * 100 + c * 10 + d;
        if filename.get_char(4) != '.' {
            return Err(invalid_filename(filename));
        }
        let mut j: usize = 5;
        while j < len && name_char(filename.get_char(j))
            invariant
                len == s.len(),
                s == filename@,
                5 <= j <= len,
                forall|k: int| 5 <= k < j ==> is_name_char(#[trigger] s[k]),
            decreases len - j,
        {
            j = j + 1;
        }
        proof {
            lemma_name_ends_at(s, j as int);
        }
        if j >= len || filename.get_char(j) != '.' {
            return Err(invalid_filename(filename));
        }
        let up_tail = vec!['u', 'p', '.', 's', 'q', 'l'];
        let down_tail = vec!['d', 'o', 'w', 'n', '.', 's', 'q', 'l'];
        let direction = if tail_matches(filename, j + 1, &up_tail) {
            Direction::Up
        } else if tail_matches(filename, j + 1, &down_tail) {
            Direction::Down
        } else {
            proof {
                assert(up_tail@ =~= direction_text(Direction::Up) + seq!['.', 's', 'q', 'l']);
                assert(down_tail@ =~= direction_text(Direction::Down) + seq!['.', 's', 'q', 'l']);
            }
            return Err(invalid_filename(filename));
        };
        let name = filename.substring_char(5, j).to_owned();
        let r = MigrationFileName { number, name, direction };
        proof {
            assert(up_tail@ =~= direction_text(Direction::Up) + seq!['.', 's', 'q', 'l']);
            assert(down_tail@ =~= direction_text(Direction::Down) + seq!['.', 's', 'q', 'l']);
            lemma_reading(s, a as nat, b as nat, c as nat, d as nat, j as int, direction);
            assert(r.name@ == s.subrange(5, j as int));
        }
        Ok(r)
    }
}

/// Writing a valid entry as a filename and reading that filename back gives the
/// entry again: `parse(format(x)) == x`.
pub proof fn lemma_parse_format_round_trip(x: MigrationFileName)
    requires
        1 <= x.number <= 9999,
        valid_name(x.name@),
    ensures
        valid_filename(x.spec_filename()),
        parse_spec(x.spec_filename()) == Some((x.number as nat, x.name@, x.direction)),
{
    let s = x.spec_filename();
    assert(parses_as(s, x.number as nat, x.name@, x.direction));
    let t = choose|number: nat, name: Seq<char>, d: Direction| parses_as(s, number, name, d);
    lemma_filename_unique(s, x.number as nat, x.name@, x.direction, t.0, t.1, t.2);
}

/// The up filename of a number and name reads back only where the number has
/// four digits and the name is valid; then so does the down filename.
pub proof fn lemma_up_filename_valid(n: nat, name: Seq<char>)
    requires
        n < 65536,
        valid_filename(filename_of(n, name, Direction::Up)),
    ensures
        n < 10000,
        valid_name(name),
        parses_as(filename_of(n, name, Direction::Down), n, name, Direction::Down),
{
    let s = filename_of(n, name, Direction::Up);
    let (n2, nm2, d2) = choose|n2: nat, nm2: Seq<char>, d2: Direction| parses_as(s, n2, nm2, d2);
    lemma_filename_shape(s, n2, nm2, d2);
    if n >= 10000 {
        assert(decimal(n) == decimal(n / 10).push(digit_char(n % 10)));
        assert(decimal(n / 10) == decimal(n / 100).push(digit_char((n / 10) % 10)));
        assert(decimal(n / 100) == decimal(n / 1000).push(digit_char((n / 100) % 10)));
        assert(decimal(n / 1000) == decimal(n / 10000).push(digit_char((n / 1000) % 10)));
        assert(n / 10 / 10 == n / 100);
        assert(n / 100 / 10 == n / 1000);
        assert(n / 1000 / 10 == n / 10000);
        assert(decimal(n / 10000) == seq![digit_char(n / 10000)]);
        assert(padded_number(n).len() == 5);
        assert(s[4] == padded_number(n)[4]);
        assert(false);
    }
    let tail = seq!['.', 'u', 'p', '.', 's', 'q', 'l'];
    assert(s =~= padded_number(n) + seq!['.'] + name + tail);
    assert forall|i: int| 0 <= i < name.len() implies s[5 + i] == name[i] by {}
    if nm2.len() > name.len() {
        assert(s[5 + name.len() as int] == '.');
        assert(s[5 + name.len() as int] == nm2[name.len() as int]);
        assert(is_name_char(nm2[name.len() as int]));
    } else if nm2.len() < name.len() {
        match d2 {
            Direction::Up => {},
            Direction::Down => {
                let t = s.subrange(6 + nm2.len() as int, s.len() as int);
                assert(t[1] == 'o');
                assert(s[5 + name.len() as int] == '.');
            },
        }
    }
    assert(nm2 =~= name);
}

/// A filename of the grammar is at least twelve characters long, opens with
/// four digits and a dot.
proof fn lemma_valid_prefix(s: Seq<char>)
    ensures
        valid_filename(s) ==> s.len() >= 12 && digit_value(s[0]) is Some && digit_value(s[1]) is Some
            && digit_value(s[2]) is Some && digit_value(s[3]) is Some && s[4] == '.',
{
    if valid_filename(s) {
        let (n, nm, d) = choose|n: nat, nm: Seq<char>, d: Direction| parses_as(s, n, nm, d);
        lemma_filename_shape(s, n, nm, d);
    }
}

/// Where the name characters after the first dot end at `j`, a filename of the
/// grammar has its second dot at `j`, followed by the direction and `.sql`.
proof fn lemma_name_ends_at(s: Seq<char>, j: int)
    requires
        5 <= j <= s.len(),
        forall|k: int| 5 <= k < j ==> is_name_char(#[trigger] s[k]),
        j == s.len() || !is_name_char(s[j]),
    ensures
        valid_filename(s) ==> j < s.len() && s[j] == '.' && (s.subrange(j + 1, s.len() as int)
            == direction_text(Direction::Up) + seq!['.', 's', 'q', 'l'] || s.subrange(
            j + 1,
            s.len() as int,
        ) == direction_text(Direction::Down) + seq!['.', 's', 'q', 'l']),
{
    if valid_filename(s) {
        let (n, nm, d) = choose|n: nat, nm: Seq<char>, d: Direction| parses_as(s, n, nm, d);
        lemma_filename_shape(s, n, nm, d);
        if nm.len() < j - 5 {
            assert(is_name_char(s[5 + nm.len() as int]));
        } else if nm.len() > j - 5 {
            assert(s[j] == nm[j - 5]);
            assert(is_name_char(nm[j - 5]));
        }
        match d {
            Direction::Up => {},
            Direction::Down => {},
        }
    }
}

/// The filename read position by position is the one of this number, name and
/// direction, and of no other.
proof fn lemma_reading(s: Seq<char>, a: nat, b: nat, c: nat, d: nat, j: int, direction: Direction)
    requires
        5 <= j < s.len(),
        digit_value(s[0]) == Some(a),
        digit_value(s[1]) == Some(b),
        digit_value(s[2]) == Some(c),
        digit_value(s[3]) == Some(d),
        a < 10,
        b < 10,
        c < 10,
        d < 10,
        s[4] == '.',
        forall|k: int| 5 <= k < j ==> is_name_char(#[trigger] s[k]),
        s[j] == '.',
        s.subrange(j + 1, s.len() as int) == direction_text(direction) + seq!['.', 's', 'q', 'l'],
    ensures
        parses_as(s, 1000 * a + 100 * b + 10 * c + d, s.subrange(5, j), direction),
        parse_spec(s) == Some((1000 * a + 100 * b + 10 * c + d, s.subrange(5, j), direction)),
{
    let n = 1000 * a + 100 * b + 10 * c + d;
    assert(n / 1000 == a && (n / 100) % 10 == b && (n / 10) % 10 == c && n % 10 == d)
        by (nonlinear_arith)
        requires
            n == 1000 * a + 100 * b + 10 * c + d,
            a < 10,
            b < 10,
            c < 10,
            d < 10,
    ;
    let name = s.subrange(5, j);
    assert forall|i: int| 0 <= i < name.len() implies is_name_char(#[trigger] name[i]) by {
        assert(name[i] == s[5 + i]);
    }
    assert(digit_char(a) == s[0] && digit_char(b) == s[1] && digit_char(c) == s[2]
        && digit_char(d) == s[3]);
    assert(padded_number(n) =~= s.subrange(0, 4));
    let tail = s.subrange(j + 1, s.len() as int);
    assert(s =~= s.subrange(0, 4) + seq!['.'] + name + seq!['.'] + tail);
    assert(s =~= filename_of(n, name, direction));
    assert(parses_as(s, n, name, direction));
    let t = choose|number: nat, name: Seq<char>, d: Direction| parses_as(s, number, name, d);
    lemma_filename_unique(s, n, name, direction, t.0, t.1, t.2);
}

} // verus!
