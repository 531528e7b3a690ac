//! Log levels and which messages are kept, by the module they come from.
use vstd::prelude::*;

verus! {

/// How serious a message is, from least to most.
#[derive(Clone, Copy, PartialEq, Eq, Structural)]
pub enum LogLevel {
    Debug,
    Info,
    Warning,
    Error,
}

/// The rank of a level: higher is more serious.
pub open spec fn rank(l: LogLevel) -> nat {
    match l {
        LogLevel::Debug => 0,
        LogLevel::Info => 1,
        LogLevel::Warning => 2,
        LogLevel::Error => 3,
    }
}

impl LogLevel {
    /// The rank of the level: higher is more serious.
    pub fn rank(&self) -> (r: u8)
        ensures
            r == rank(*self),
    {
        match self {
            LogLevel::Debug => 0,
            LogLevel::Info => 1,
            LogLevel::Warning => 2,
            LogLevel::Error => 3,
        }
    }

    /// The level as printed.
    pub fn name(&self) -> (r: &'static str)
        ensures
            *self is Debug ==> r@ == "DEBUG"@,
            *self is Info ==> r@ == "INFO"@,
            *self is Warning ==> r@ == "WARNING"@,
            *self is Error ==> r@ == "ERROR"@,
    {
        match self {
            LogLevel::Debug => "DEBUG",
            LogLevel::Info => "INFO",
            LogLevel::Warning => "WARNING",
            LogLevel::Error => "ERROR",
        }
    }
}

/// A message: where it was logged, how serious it is, and its text.
pub struct Log {
    pub file: &'static str,
    pub line: u32,
    pub level: LogLevel,
    pub message: String,
}

/// The level set for each module, kept in a `hashbrown::HashMap`.
#[verifier::external_body]
pub struct LevelTable {
    levels: hashbrown::HashMap<String, LogLevel>,
}

/// The level a `LevelTable` sets for each module, by the module's path.
pub uninterp spec fn level_table_contents(t: LevelTable) -> Map<Seq<char>, LogLevel>;

/// An empty table, made by `hashbrown::HashMap::new`.
#[verifier::external_body]
fn level_table_new() -> (r: LevelTable)
    ensures
        level_table_contents(r).dom() == Set::<Seq<char>>::empty(),
{
    LevelTable { levels: hashbrown::HashMap::new() }
}

/// Sets the level of `module` with `hashbrown::HashMap::insert`.
#[verifier::external_body]
fn level_table_insert(t: &mut LevelTable, module: String, level: LogLevel)
    ensures
        level_table_contents(*final(t)) == level_table_contents(*old(t)).insert(module@, level),
{
    t.levels.insert(module, level);
}

/// The level set for `module`, by `hashbrown::HashMap::get`.
#[verifier::external_body]
fn level_table_get(t: &LevelTable, module: &str) -> (r: Option<LogLevel>)
    ensures
        level_table_contents(*t).dom().contains(module@) ==> r == Some(
            level_table_contents(*t)[module@],
        ),
        !level_table_contents(*t).dom().contains(module@) ==> r is None,
{
    t.levels.get(module).copied()
}

/// The map that setting the levels of `s` in order gives.
pub open spec fn levels_map(s: Seq<(String, LogLevel)>) -> Map<Seq<char>, LogLevel>
    decreases s.len(),
{
    if s.len() == 0 {
        Map::empty()
    } else {
        levels_map(s.drop_last()).insert(s.last().0@, s.last().1)
    }
}

/// The levels set for modules; others log from `Info` up.
pub struct LogLevels {
    levels: LevelTable,
}

impl LogLevels {
    /// The level set for each module.
    pub closed spec fn levels(&self) -> Map<Seq<char>, LogLevel> {
        level_table_contents(self.levels)
    }

    /// The levels `levels` sets, in order: the last one given for a module counts.
    pub fn new(levels: Vec<(String, LogLevel)>) -> (r: LogLevels)
        ensures
            r.levels() == levels_map(levels@),
    {
        let ghost given = levels@;
        let mut table = level_table_new();
        proof {
            assert(level_table_contents(table) =~= levels_map(given.take(0)));
        }
        let mut rest = levels;
        let total = rest.len();
        let mut i: usize = 0;
        while rest.len() > 0
            invariant
                total == given.len(),
                i + rest@.len() == given.len(),
                rest@ == given.skip(i as int),
                level_table_contents(table) == levels_map(given.take(i as int)),
            decreases rest@.len(),
        {
            let (module, level) = rest.remove(0);
            proof {
                assert(given.take(i + 1).drop_last() =~= given.take(i as int));
                assert(given[i as int] == (module, level));
                assert(rest@ =~= given.skip(i + 1));
            }
            level_table_insert(&mut table, module, level);
            i += 1;
        }
        proof {
            assert(given.take(i as int) =~= given);
        }
        LogLevels { levels: table }
    }

    /// The level messages of `module` are kept from.
    pub fn get_level(&self, module: &str) -> (r: LogLevel)
        ensures
            self.levels().dom().contains(module@) ==> r == self.levels()[module@],
            !self.levels().dom().contains(module@) ==> r == LogLevel::Info,
    {
        match level_table_get(&self.levels, module) {
            Some(level) => level,
            None => LogLevel::Info,
        }
    }

    /// Whether a message of `level` from `module` is kept.
    pub fn enabled(&self, module: &str, level: LogLevel) -> (r: bool)
        ensures
            self.levels().dom().contains(module@) ==> r == (rank(self.levels()[module@]) <= rank(
                level,
            )),
            !self.levels().dom().contains(module@) ==> r == (1 <= rank(level)),
    {
        self.get_level(module).rank() <= level.rank()
    }
}

} // verus!
