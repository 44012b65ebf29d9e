//! Migration files and the validated, ordered set of migrations built from them.
use vstd::prelude::*;

use crate::codec::{Direction, MigrationFileName, parse_spec, valid_name};
use crate::error::MigrationError;

verus! {

/// The number of filename slots: numbers have four digits.
pub const NUMBER_SLOTS: usize = 10000;

/// A single direction migration file.
#[derive(Debug, Clone)]
pub struct MigrationFile {
    /// Content of the file, once read.
    pub content: Option<String>,
    /// Direction.
    pub direction: Direction,
    /// Number.
    pub number: i32,
    /// Filename.
    pub filename: String,
    /// The migration's name (the filename without number and direction).
    pub name: String,
}

impl MigrationFile {
    /// A file whose content is not read yet.
    pub fn new(filename: &str, name: &str, number: i32, direction: Direction) -> (r: MigrationFile)
        ensures
            r.content is None,
            r.filename@ == filename@,
            r.name@ == name@,
            r.number == number,
            r.direction == direction,
    {
        MigrationFile {
            content: None,
            filename: filename.to_owned(),
            number: number,
            name: name.to_owned(),
            direction: direction,
        }
    }
}

/// The name and content of one side of a migration.
#[derive(Debug, Clone)]
pub struct MigrationNameAndContent {
    pub name: String,
    pub content: String,
}

/// The files found so far for one migration number.
#[derive(Debug, Clone)]
pub struct PartialMigration {
    pub up: Option<MigrationNameAndContent>,
    pub down: Option<MigrationNameAndContent>,
}

/// A migration: its number, name, and the scripts that apply and revert it.
#[derive(Debug, Clone)]
pub struct Migration {
    /// The migration's number, from 1.
    pub number: u16,
    /// The up script.
    pub up: String,
    /// The down script.
    pub down: String,
    /// The name of the migration.
    pub name: String,
}

/// The migrations numbered `1..=N`, in ascending order.
#[derive(Debug, Clone)]
pub struct Migrations {
    items: Vec<Migration>,
}

impl View for Migrations {
    type V = Seq<Migration>;

    closed spec fn view(&self) -> Seq<Migration> {
        self.items@
    }
}

impl Migrations {
    /// Migration `i + 1` stands at position `i`, and numbers have four digits.
    pub open spec fn wf(&self) -> bool {
        &&& self@.len() <= 9999
        &&& forall|i: int| 0 <= i < self@.len() ==> (#[trigger] self@[i]).number == i + 1
    }

    /// No migration.
    pub fn new() -> (r: Migrations)
        ensures
            r@ == Seq::<Migration>::empty(),
            r.wf(),
    {
        Migrations { items: Vec::new() }
    }

    /// The number of migrations, which is also the highest number.
    pub fn len(&self) -> (r: usize)
        ensures
            r == self@.len(),
    {
        self.items.len()
    }

    /// Whether there is no migration.
    pub fn is_empty(&self) -> (r: bool)
        ensures
            r == (self@.len() == 0),
    {
        self.items.len() == 0
    }

    /// The highest migration number, 0 when there is none.
    pub fn max_number(&self) -> (r: u16)
        requires
            self.wf(),
        ensures
            r == self@.len(),
    {
        self.items.len() as u16
    }

    /// The migration with this number.
    pub fn get(&self, number: u16) -> (r: Option<&Migration>)
        requires
            self.wf(),
        ensures
            1 <= number <= self@.len() ==> r == Some(&self@[number - 1]),
            !(1 <= number <= self@.len()) ==> r is None,
    {
        if number >= 1 && (number as usize) <= self.items.len() {
            Some(&self.items[number as usize - 1])
        } else {
            None
        }
    }

    /// Appends the migration numbered one past the last.
    pub fn push(&mut self, name: String, up: String, down: String)
        requires
            old(self).wf(),
            old(self)@.len() < 9999,
        ensures
            final(self).wf(),
            final(self)@ == old(self)@.push(
                Migration { number: (old(self)@.len() + 1) as u16, up, down, name },
            ),
    {
        let number = (self.items.len() + 1) as u16;
        self.items.push(Migration { number, up, down, name });
    }
}

/// The name and content of the file for this number and direction, if any: of
/// two such files the later one counts. Files off the grammar are skipped.
pub open spec fn side_of(files: Seq<(String, String)>, number: nat, d: Direction) -> Option<
    (Seq<char>, Seq<char>),
>
    decreases files.len(),
{
    if files.len() == 0 {
        None
    } else {
        let p = parse_spec(files.last().0@);
        if p is Some && p->Some_0.0 == number && p->Some_0.2 == d {
            Some((p->Some_0.1, files.last().1@))
        } else {
            side_of(files.drop_last(), number, d)
        }
    }
}

/// Some file carries this number.
pub open spec fn present(files: Seq<(String, String)>, number: nat) -> bool {
    side_of(files, number, Direction::Up) is Some || side_of(files, number, Direction::Down) is Some
}

/// The numbers present are exactly `1..=N` for some `N`.
pub open spec fn contiguous(files: Seq<(String, String)>) -> bool {
    &&& !present(files, 0)
    &&& forall|m: nat, n: nat|
        1 <= m < n && #[trigger] present(files, n) ==> #[trigger] present(files, m)
}

/// Position `i` (from 1) of the ascending list of numbers present does not hold
/// the number `i`, and every earlier position does.
pub open spec fn missing_at(files: Seq<(String, String)>, i: nat) -> bool {
    if present(files, 0) {
        i == 1
    } else {
        &&& i >= 1
        &&& !present(files, i)
        &&& exists|n: nat| n > i && #[trigger] present(files, n)
        &&& forall|m: nat| 1 <= m < i ==> #[trigger] present(files, m)
    }
}

/// Both files of this number are there.
pub open spec fn complete(files: Seq<(String, String)>, number: nat) -> bool {
    side_of(files, number, Direction::Up) is Some && side_of(files, number, Direction::Down) is Some
}

/// Both files of this number are there and carry the same name.
pub open spec fn pair_ok(files: Seq<(String, String)>, number: nat) -> bool {
    complete(files, number) && side_of(files, number, Direction::Up)->Some_0.0 == side_of(
        files,
        number,
        Direction::Down,
    )->Some_0.0
}

/// `number` is the first migration whose pair of files is not in order.
pub open spec fn first_bad_pair(files: Seq<(String, String)>, number: nat) -> bool {
    &&& number >= 1
    &&& present(files, number)
    &&& !pair_ok(files, number)
    &&& forall|m: nat| 1 <= m < number ==> #[trigger] pair_ok(files, m)
}

/// `m` is migration `number` built from its two files.
pub open spec fn built_from(files: Seq<(String, String)>, number: nat, m: Migration) -> bool {
    &&& m.number == number
    &&& m.name@ == side_of(files, number, Direction::Up)->Some_0.0
    &&& m.up@ == side_of(files, number, Direction::Up)->Some_0.1
    &&& m.down@ == side_of(files, number, Direction::Down)->Some_0.1
}

/// Only four-digit numbers carry files, and their names are valid.
proof fn lemma_side_bound(files: Seq<(String, String)>, number: nat, d: Direction)
    ensures
        side_of(files, number, d) is Some ==> number < 10000 && valid_name(
            side_of(files, number, d)->Some_0.0,
        ),
    decreases files.len(),
{
    if files.len() > 0 {
        lemma_side_bound(files.drop_last(), number, d);
    }
}

/// The model of one side of a slot.
pub open spec fn side_model(s: Option<MigrationNameAndContent>) -> Option<(Seq<char>, Seq<char>)> {
    match s {
        Some(x) => Some((x.name@, x.content@)),
        None => None,
    }
}

/// Whether slot `k` holds a file of either direction.
fn slot_present(slots: &Vec<PartialMigration>, k: usize) -> (r: bool)
    requires
        k < slots@.len(),
    ensures
        r == (side_model(slots@[k as int].up) is Some || side_model(slots@[k as int].down) is Some),
{
    slots[k].up.is_some() || slots[k].down.is_some()
}

/// Groups the files `(filename, content)` of a directory by number and checks
/// them: the numbers present must be `1..=N` (else `MissingMigration` at the
/// first position that breaks this), and each must have an up and a down file
/// (else `IncompleteMigrationPair`) of the same name (else `NameMismatch`).
/// Files whose names are off the grammar are skipped; of two files with one
/// number and direction the later counts.
#[verifier::rlimit(60)]
pub fn migrations_from_files(files: &Vec<(String, String)>) -> (r: Result<Migrations, MigrationError>)
    ensures
        r matches Ok(m) ==> {
            &&& m.wf()
            &&& contiguous(files@)
            &&& forall|n: nat| #[trigger] present(files@, n) <==> 1 <= n <= m@.len()
            &&& forall|n: nat| 1 <= n <= m@.len() ==> #[trigger] pair_ok(files@, n)
            &&& forall|i: int|
                0 <= i < m@.len() ==> built_from(files@, (i + 1) as nat, #[trigger] m@[i])
        },
        r matches Err(MigrationError::MissingMigration(i)) ==> missing_at(files@, i as nat),
        r matches Err(MigrationError::IncompleteMigrationPair(n)) ==> {
            &&& contiguous(files@)
            &&& first_bad_pair(files@, n as nat)
            &&& !complete(files@, n as nat)
        },
        r matches Err(MigrationError::NameMismatch(n, a, b)) ==> {
            &&& contiguous(files@)
            &&& first_bad_pair(files@, n as nat)
            &&& complete(files@, n as nat)
            &&& a@ == side_of(files@, n as nat, Direction::Up)->Some_0.0
            &&& b@ == side_of(files@, n as nat, Direction::Down)->Some_0.0
        },
        r is Err ==> r->Err_0 is MissingMigration || r->Err_0 is IncompleteMigrationPair
            || r->Err_0 is NameMismatch,
{
    let mut slots: Vec<PartialMigration> = Vec::new();
    let mut k: usize = 0;
    while k < NUMBER_SLOTS
        invariant
            k <= NUMBER_SLOTS,
            slots@.len() == k,
            forall|x: int| 0 <= x < k ==> (#[trigger] slots@[x]).up is None && slots@[x].down is None,
        decreases NUMBER_SLOTS - k,
    {
        slots.push(PartialMigration { up: None, down: None });
        k = k + 1;
    }
    let mut i: usize = 0;
    while i < files.len()
        invariant
            i <= files@.len(),
            slots@.len() == NUMBER_SLOTS,
            forall|x: int|
                0 <= x < NUMBER_SLOTS ==> side_model((#[trigger] slots@[x]).up) == side_of(
                    files@.take(i as int),
                    x as nat,
                    Direction::Up,
                ) && side_model(slots@[x].down) == side_of(
                    files@.take(i as int),
                    x as nat,
                    Direction::Down,
                ),
        decreases files@.len() - i,
    {
        assert(files@.take(i + 1).drop_last() =~= files@.take(i as int));
        assert(files@.take(i + 1).last() == files@[i as int]);
        match MigrationFileName::parse(files[i].0.as_str()) {
            Ok(info) => {
                let n = info.number as usize;
                let side = MigrationNameAndContent { name: info.name, content: files[i].1.clone() };
                match info.direction {
                    Direction::Up => {
                        slots[n].up = Some(side);
                    },
                    Direction::Down => {
                        slots[n].down = Some(side);
                    },
                }
            },
            Err(_) => {},
        }
        i = i + 1;
    }
    assert(files@.take(files@.len() as int) =~= files@);
    let ghost fs = files@;
    assert forall|x: nat| #[trigger] present(fs, x) implies x < 10000 by {
        lemma_side_bound(fs, x, Direction::Up);
        lemma_side_bound(fs, x, Direction::Down);
    }
    if slot_present(&slots, 0) {
        return Err(MigrationError::MissingMigration(1));
    }
    // The highest number present, 0 when none is.
    let mut top: usize = 0;
    let mut k: usize = 1;
    while k < NUMBER_SLOTS
        invariant
            1 <= k <= NUMBER_SLOTS,
            top < k,
            slots@.len() == NUMBER_SLOTS,
            forall|x: int|
                0 <= x < NUMBER_SLOTS ==> side_model((#[trigger] slots@[x]).up) == side_of(
                    fs,
                    x as nat,
                    Direction::Up,
                ) && side_model(slots@[x].down) == side_of(fs, x as nat, Direction::Down),
            top == 0 || present(fs, top as nat),
            fs == files@,
            forall|x: nat| top < x < k ==> !#[trigger] present(fs, x),
        decreases NUMBER_SLOTS - k,
    {
        if slot_present(&slots, k) {
            top = k;
        }
        k = k + 1;
    }
    let mut m: usize = 1;
    while m <= top
        invariant
            1 <= m <= top + 1,
            top < NUMBER_SLOTS,
            slots@.len() == NUMBER_SLOTS,
            forall|x: int|
                0 <= x < NUMBER_SLOTS ==> side_model((#[trigger] slots@[x]).up) == side_of(
                    fs,
                    x as nat,
                    Direction::Up,
                ) && side_model(slots@[x].down) == side_of(fs, x as nat, Direction::Down),
            !present(fs, 0),
            top == 0 || present(fs, top as nat),
            fs == files@,
            forall|x: nat| x > top ==> !#[trigger] present(fs, x),
            forall|x: nat| 1 <= x < m ==> #[trigger] present(fs, x),
        decreases top + 1 - m,
    {
        if !slot_present(&slots, m) {
            assert(present(fs, top as nat));
            assert(missing_at(fs, m as nat));
            return Err(MigrationError::MissingMigration(m));
        }
        m = m + 1;
    }
    assert(contiguous(fs));
    let mut migrations = Migrations::new();
    let mut n: usize = 1;
    while n <= top
        invariant
            1 <= n <= top + 1,
            top < NUMBER_SLOTS,
            slots@.len() == NUMBER_SLOTS,
            forall|x: int|
                0 <= x < NUMBER_SLOTS ==> side_model((#[trigger] slots@[x]).up) == side_of(
                    fs,
                    x as nat,
                    Direction::Up,
                ) && side_model(slots@[x].down) == side_of(fs, x as nat, Direction::Down),
            contiguous(fs),
            fs == files@,
            forall|x: nat| #[trigger] present(fs, x) <==> 1 <= x <= top,
            forall|x: nat| 1 <= x < n ==> #[trigger] pair_ok(fs, x),
            migrations.wf(),
            migrations@.len() == n - 1,
            forall|j: int|
                0 <= j < migrations@.len() ==> built_from(fs, (j + 1) as nat, #[trigger] migrations@[j]),
        decreases top + 1 - n,
    {
        let slot = &slots[n];
        match (&slot.up, &slot.down) {
            (Some(up), Some(down)) => {
                if up.name != down.name {
                    return Err(
                        MigrationError::NameMismatch(n as u16, up.name.clone(), down.name.clone()),
                    );
                }
                migrations.push(up.name.clone(), up.content.clone(), down.content.clone());
            },
            _ => {
                return Err(MigrationError::IncompleteMigrationPair(n as u16));
            },
        }
        n = n + 1;
    }
    Ok(migrations)
}

} // verus!
