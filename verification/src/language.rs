//! The vocabulary of the language: which keyword names which command, how each
//! command treats sequence arguments, and which leading characters expand a
//! word when it is read.

use vstd::prelude::*;
use crate::text::str_eq;

verus! {

/// How a command treats one of its arguments when that argument is a sequence.
#[derive(Debug, Clone, Copy, PartialEq, Eq, Structural)]
pub enum FyfthBroadcastBehavior {
    /// The sequence is handed to the command as one value.
    IgnoreIter,
    /// The command is applied to the items of the sequence one by one.
    MayIter,
}

/// What a keyword stands for: a command of the base vocabulary, or one that the
/// host carries out, told apart by a code of the host's choosing.
#[derive(Debug, Clone, Copy, PartialEq, Eq, Structural)]
pub enum FyfthFunc {
    Entities,
    GetValue,
    SetValue,
    Add,
    Sub,
    Mul,
    Div,
    Print,
    Store,
    Load,
    PrintVars,
    Geq,
    Leq,
    Eq,
    Not,
    Name,
    Pop,
    Index,
    Enum,
    Len,
    Type,
    Append,
    Extend,
    Reverse,
    Filter,
    Select,
    Mod,
    Vec2,
    Vec3,
    Quat,
    Fuzzy,
    Regex,
    Sin,
    Cos,
    Tan,
    Atan,
    Atan2,
    Host(u32),
}

/// How a prefix character expands the word behind it: one of the base
/// expansions, or one that the host carries out.
#[derive(Debug, Clone, Copy, PartialEq, Eq, Structural)]
pub enum FyfthPrefixParser {
    /// `word` becomes: the word as text, `load`.
    Load,
    /// `word` becomes: the word as text, `load`, `queue`.
    QueueMacro,
    /// `word` becomes: the word as text, `"fuzzent"`, `load`, `queue`, `0`, `index`.
    FuzzyEntity,
    Host(u32),
}

/// The number of arguments that a command of the base vocabulary takes. A
/// command of the host takes as many as it is registered with.
pub open spec fn arity_of(func: FyfthFunc) -> Option<nat> {
    match func {
        FyfthFunc::Entities | FyfthFunc::PrintVars => Some(0),
        FyfthFunc::Print
        | FyfthFunc::Load
        | FyfthFunc::Not
        | FyfthFunc::Name
        | FyfthFunc::Pop
        | FyfthFunc::Enum
        | FyfthFunc::Len
        | FyfthFunc::Type
        | FyfthFunc::Reverse
        | FyfthFunc::Sin
        | FyfthFunc::Cos
        | FyfthFunc::Tan
        | FyfthFunc::Atan => Some(1),
        FyfthFunc::GetValue
        | FyfthFunc::Add
        | FyfthFunc::Sub
        | FyfthFunc::Mul
        | FyfthFunc::Div
        | FyfthFunc::Store
        | FyfthFunc::Geq
        | FyfthFunc::Leq
        | FyfthFunc::Eq
        | FyfthFunc::Index
        | FyfthFunc::Append
        | FyfthFunc::Extend
        | FyfthFunc::Filter
        | FyfthFunc::Mod
        | FyfthFunc::Vec2
        | FyfthFunc::Fuzzy
        | FyfthFunc::Regex
        | FyfthFunc::Atan2 => Some(2),
        FyfthFunc::SetValue | FyfthFunc::Select | FyfthFunc::Vec3 => Some(3),
        FyfthFunc::Quat => Some(4),
        FyfthFunc::Host(_) => None,
    }
}

/// A command may be registered with `count` arguments.
pub open spec fn accepts_arity(func: FyfthFunc, count: nat) -> bool {
    arity_of(func) matches Some(n) ==> n == count
}

impl FyfthFunc {
    /// Whether the command may be registered with `count` arguments.
    pub fn accepts(&self, count: usize) -> (fits: bool)
        ensures
            fits == accepts_arity(*self, count as nat),
    {
        match self {
            FyfthFunc::Entities | FyfthFunc::PrintVars => count == 0,
            FyfthFunc::Print
            | FyfthFunc::Load
            | FyfthFunc::Not
            | FyfthFunc::Name
            | FyfthFunc::Pop
            | FyfthFunc::Enum
            | FyfthFunc::Len
            | FyfthFunc::Type
            | FyfthFunc::Reverse
            | FyfthFunc::Sin
            | FyfthFunc::Cos
            | FyfthFunc::Tan
            | FyfthFunc::Atan => count == 1,
            FyfthFunc::GetValue
            | FyfthFunc::Add
            | FyfthFunc::Sub
            | FyfthFunc::Mul
            | FyfthFunc::Div
            | FyfthFunc::Store
            | FyfthFunc::Geq
            | FyfthFunc::Leq
            | FyfthFunc::Eq
            | FyfthFunc::Index
            | FyfthFunc::Append
            | FyfthFunc::Extend
            | FyfthFunc::Filter
            | FyfthFunc::Mod
            | FyfthFunc::Vec2
            | FyfthFunc::Fuzzy
            | FyfthFunc::Regex
            | FyfthFunc::Atan2 => count == 2,
            FyfthFunc::SetValue | FyfthFunc::Select | FyfthFunc::Vec3 => count == 3,
            FyfthFunc::Quat => count == 4,
            FyfthFunc::Host(_) => true,
        }
    }
}

/// A registered command.
#[derive(Debug)]
pub struct FnInfo {
    pub keyword: String,
    pub func: FyfthFunc,
    pub broadcast_behaviors: Vec<FyfthBroadcastBehavior>,
}

/// A registered prefix.
#[derive(Debug, Clone, Copy)]
pub struct PrefixInfo {
    pub ch: char,
    pub parser: FyfthPrefixParser,
}

/// What a registered command is, with its texts and lists as sequences.
pub struct FyfthCommandSpec {
    pub keyword: Seq<char>,
    pub func: FyfthFunc,
    pub behaviors: Seq<FyfthBroadcastBehavior>,
}

impl View for FnInfo {
    type V = FyfthCommandSpec;

    open spec fn view(&self) -> FyfthCommandSpec {
        FyfthCommandSpec {
            keyword: self.keyword@,
            func: self.func,
            behaviors: self.broadcast_behaviors@,
        }
    }
}

impl Clone for FnInfo {
    fn clone(&self) -> (copy: FnInfo)
        ensures
            copy@ == self@,
    {
        let mut behaviors: Vec<FyfthBroadcastBehavior> = Vec::new();
        let mut at: usize = 0;
        while at < self.broadcast_behaviors.len()
            invariant
                at <= self.broadcast_behaviors.len(),
                behaviors@ == self.broadcast_behaviors@.take(at as int),
            decreases self.broadcast_behaviors.len() - at,
        {
            behaviors.push(self.broadcast_behaviors[at]);
            at += 1;
            assert(self.broadcast_behaviors@.take(at as int) =~= self.broadcast_behaviors@.take(
                at as int - 1,
            ).push(self.broadcast_behaviors@[at as int - 1]));
        }
        assert(self.broadcast_behaviors@.take(at as int) =~= self.broadcast_behaviors@);
        FnInfo { keyword: self.keyword.clone(), func: self.func, broadcast_behaviors: behaviors }
    }
}

/// The index of the last command registered under `keyword`: a later
/// registration of a keyword shadows the earlier ones.
pub open spec fn find_command(commands: Seq<FyfthCommandSpec>, keyword: Seq<char>) -> Option<int>
    decreases commands.len(),
{
    if commands.len() == 0 {
        None
    } else if commands.last().keyword == keyword {
        Some(commands.len() - 1)
    } else {
        find_command(commands.drop_last(), keyword)
    }
}

/// The index of the first prefix registered for `ch`.
pub open spec fn find_prefix(prefixes: Seq<PrefixInfo>, ch: char) -> Option<int>
    decreases prefixes.len(),
{
    if prefixes.len() == 0 {
        None
    } else if prefixes[0].ch == ch {
        Some(0)
    } else {
        match find_prefix(prefixes.drop_first(), ch) {
            Some(at) => Some(at + 1),
            None => None,
        }
    }
}

/// Some command of `left` has the keyword of some command of `right`.
pub open spec fn keywords_collide(
    left: Seq<FyfthCommandSpec>,
    right: Seq<FyfthCommandSpec>,
) -> bool {
    exists|i: int, j: int|
        0 <= i < left.len() && 0 <= j < right.len() && #[trigger] left[i].keyword
            == #[trigger] right[j].keyword
}

/// Some prefix of `left` has the character of some prefix of `right`.
pub open spec fn prefixes_collide(left: Seq<PrefixInfo>, right: Seq<PrefixInfo>) -> bool {
    exists|i: int, j: int|
        0 <= i < left.len() && 0 <= j < right.len() && #[trigger] left[i].ch
            == #[trigger] right[j].ch
}

/// `find_command` finds a command exactly when one has the keyword, and what
/// it finds is the last of them.
pub proof fn lemma_find_command(commands: Seq<FyfthCommandSpec>, keyword: Seq<char>)
    ensures
        match find_command(commands, keyword) {
            Some(at) => 0 <= at < commands.len() && commands[at].keyword == keyword && forall|
                i: int,
            |
                at < i < commands.len() ==> (#[trigger] commands[i]).keyword != keyword,
            None => forall|i: int|
                0 <= i < commands.len() ==> (#[trigger] commands[i]).keyword != keyword,
        },
    decreases commands.len(),
{
    if commands.len() > 0 && commands.last().keyword != keyword {
        let rest = commands.drop_last();
        lemma_find_command(rest, keyword);
        assert forall|i: int| 0 <= i < rest.len() implies rest[i] == commands[i] by {}
        match find_command(rest, keyword) {
            Some(at) => {
                assert forall|i: int| at < i < commands.len() implies (#[trigger] commands[i]).keyword
                    != keyword by {
                    if i < rest.len() {
                        assert(rest[i].keyword != keyword);
                    }
                }
            },
            None => {
                assert forall|i: int| 0 <= i < commands.len() implies (#[trigger] commands[i]).keyword
                    != keyword by {
                    if i < rest.len() {
                        assert(rest[i].keyword != keyword);
                    }
                }
            },
        }
    }
}

/// `find_prefix` finds a prefix exactly when one has the character, and what
/// it finds is the first of them.
pub proof fn lemma_find_prefix(prefixes: Seq<PrefixInfo>, ch: char)
    ensures
        match find_prefix(prefixes, ch) {
            Some(at) => 0 <= at < prefixes.len() && prefixes[at].ch == ch && forall|i: int|
                0 <= i < at ==> (#[trigger] prefixes[i]).ch != ch,
            None => forall|i: int| 0 <= i < prefixes.len() ==> (#[trigger] prefixes[i]).ch != ch,
        },
    decreases prefixes.len(),
{
    if prefixes.len() > 0 && prefixes[0].ch != ch {
        lemma_find_prefix(prefixes.drop_first(), ch);
        match find_prefix(prefixes.drop_first(), ch) {
            Some(at) => {
                assert forall|i: int| 0 <= i < at + 1 implies (#[trigger] prefixes[i]).ch != ch by {
                    if i > 0 {
                        assert(prefixes.drop_first()[i - 1].ch != ch);
                    }
                }
            },
            None => {
                assert forall|i: int| 0 <= i < prefixes.len() implies (#[trigger] prefixes[i]).ch
                    != ch by {
                    if i > 0 {
                        assert(prefixes.drop_first()[i - 1].ch != ch);
                    }
                }
            },
        }
    }
}

/// A registration on top of the others is found under its keyword, and leaves
/// what every other keyword names as it was.
pub proof fn lemma_find_command_push(
    commands: Seq<FyfthCommandSpec>,
    added: FyfthCommandSpec,
    keyword: Seq<char>,
)
    ensures
        find_command(commands.push(added), keyword) == if keyword == added.keyword {
            Some(commands.len() as int)
        } else {
            find_command(commands, keyword)
        },
{
    assert(commands.push(added).drop_last() =~= commands);
}

/// The commands of both, those of `right` renumbered to follow those of
/// `left`: a keyword of `left` keeps its index, and one of `right` is found at
/// its index in `right` plus the number of commands of `left`.
pub proof fn lemma_find_command_merged(
    left: Seq<FyfthCommandSpec>,
    right: Seq<FyfthCommandSpec>,
    keyword: Seq<char>,
)
    requires
        !keywords_collide(left, right),
    ensures
        find_command(left + right, keyword) == match find_command(right, keyword) {
            Some(at) => Some(at + left.len()),
            None => find_command(left, keyword),
        },
    decreases right.len(),
{
    if right.len() == 0 {
        assert(left + right =~= left);
    } else {
        assert((left + right).drop_last() =~= left + right.drop_last());
        assert((left + right).last() == right.last());
        if right.last().keyword != keyword {
            assert forall|i: int, j: int|
                0 <= i < left.len() && 0 <= j < right.drop_last().len() implies #[trigger] left[i].keyword
                != #[trigger] right.drop_last()[j].keyword by {
                assert(right.drop_last()[j] == right[j]);
            }
            lemma_find_command_merged(left, right.drop_last(), keyword);
        }
    }
}

/// The vocabulary that an interpreter reads and runs with: the registered
/// commands in the order of their registration, which is the order of their
/// indices, and the registered prefixes.
#[derive(Debug)]
pub struct FyfthLanguageExtension {
    functions: Vec<FnInfo>,
    prefixes: Vec<PrefixInfo>,
}

/// What holds of every vocabulary: a command's index fits in 32 bits, each
/// command of the base vocabulary is registered with as many arguments as it
/// takes, each prefix character is registered once, and the quote is none.
pub open spec fn well_formed(commands: Seq<FyfthCommandSpec>, prefixes: Seq<PrefixInfo>) -> bool {
    &&& commands.len() <= u32::MAX
    &&& forall|i: int|
        0 <= i < commands.len() ==> accepts_arity(
            (#[trigger] commands[i]).func,
            commands[i].behaviors.len(),
        )
    &&& forall|i: int| 0 <= i < prefixes.len() ==> (#[trigger] prefixes[i]).ch != '"'
    &&& forall|i: int, j: int|
        0 <= i < j < prefixes.len() ==> (#[trigger] prefixes[i]).ch != (#[trigger] prefixes[j]).ch
}

impl FyfthLanguageExtension {
    /// The registered commands, by index.
    pub closed spec fn commands(&self) -> Seq<FyfthCommandSpec> {
        Seq::new(self.functions@.len(), |i: int| self.functions@[i]@)
    }

    /// The registered prefixes, by index.
    pub closed spec fn prefixes(&self) -> Seq<PrefixInfo> {
        self.prefixes@
    }

    #[verifier::type_invariant]
    spec fn valid(&self) -> bool {
        well_formed(self.commands(), self.prefixes())
    }

    /// A vocabulary with no command and no prefix.
    pub fn new_empty() -> (lang: Self)
        ensures
            lang.commands().len() == 0,
            lang.prefixes().len() == 0,
    {
        FyfthLanguageExtension { functions: Vec::new(), prefixes: Vec::new() }
    }

    /// The number of registered commands.
    pub fn command_count(&self) -> (count: usize)
        ensures
            count == self.commands().len(),
            count <= u32::MAX,
    {
        proof {
            use_type_invariant(self);
        }
        self.functions.len()
    }

    /// The command registered under `index`.
    pub fn command(&self, index: usize) -> (info: &FnInfo)
        requires
            index < self.commands().len(),
        ensures
            info@ == self.commands()[index as int],
            accepts_arity(info.func, info.broadcast_behaviors@.len()),
    {
        proof {
            use_type_invariant(self);
            assert(accepts_arity(
                self.commands()[index as int].func,
                self.commands()[index as int].behaviors.len(),
            ));
        }
        &self.functions[index]
    }

    /// The number of registered prefixes.
    pub fn prefix_count(&self) -> (count: usize)
        ensures
            count == self.prefixes().len(),
    {
        self.prefixes.len()
    }

    /// The prefix registered under `index`.
    pub fn prefix(&self, index: usize) -> (info: PrefixInfo)
        requires
            index < self.prefixes().len(),
        ensures
            info == self.prefixes()[index as int],
    {
        self.prefixes[index]
    }

    /// The index of the prefix registered for `ch`, if there is one.
    #[verifier::loop_isolation(false)]
    pub fn get_prefix(&self, ch: char) -> (found: Option<u32>)
        ensures
            found is Some <==> find_prefix(self.prefixes(), ch) is Some,
            found matches Some(at) ==> find_prefix(self.prefixes(), ch) == Some(at as int),
    {
        proof {
            use_type_invariant(self);
            lemma_find_prefix(self.prefixes@, ch);
        }
        let mut at: usize = 0;
        while at < self.prefixes.len() && at < u32::MAX as usize
            invariant
                at <= self.prefixes.len(),
                forall|i: int| 0 <= i < at ==> (#[trigger] self.prefixes@[i]).ch != ch,
            decreases self.prefixes.len() - at,
        {
            if self.prefixes[at].ch == ch {
                return Some(at as u32);
            }
            at += 1;
        }
        proof {
            if at < self.prefixes.len() {
                Self::lemma_few_prefixes(self.prefixes@);
            }
        }
        None
    }

    /// Prefixes with distinct characters are fewer than there are characters.
    proof fn lemma_few_prefixes(prefixes: Seq<PrefixInfo>)
        requires
            forall|i: int, j: int|
                0 <= i < j < prefixes.len() ==> (#[trigger] prefixes[i]).ch != (
                #[trigger] prefixes[j]).ch,
        ensures
            prefixes.len() <= 0x11_0000,
    {
        let codes = prefixes.map_values(|p: PrefixInfo| p.ch as int);
        assert(codes.no_duplicates()) by {
            assert forall|i: int, j: int|
                0 <= i < codes.len() && 0 <= j < codes.len() && i != j implies codes[i]
                != codes[j] by {
                if i < j {
                    assert(prefixes[i].ch != prefixes[j].ch);
                } else {
                    assert(prefixes[j].ch != prefixes[i].ch);
                }
            }
        }
        codes.unique_seq_to_set();
        let all = vstd::set_lib::set_int_range(0, 0x11_0000);
        vstd::set_lib::lemma_int_range(0, 0x11_0000);
        assert(codes.to_set().subset_of(all)) by {
            assert forall|c: int| codes.to_set().contains(c) implies all.contains(c) by {
                let i = choose|i: int| 0 <= i < codes.len() && codes[i] == c;
                assert(codes[i] == prefixes[i].ch as int);
            }
        }
        vstd::set_lib::lemma_len_subset(codes.to_set(), all);
    }

    /// The index of the command that `keyword` names: the last one registered
    /// under it.
    pub fn get_command_id(&self, keyword: &str) -> (found: Option<u32>)
        ensures
            found is Some <==> find_command(self.commands(), keyword@) is Some,
            found matches Some(at) ==> find_command(self.commands(), keyword@) == Some(at as int),
    {
        proof {
            use_type_invariant(self);
        }
        let mut at: usize = self.functions.len();
        assert(self.commands().take(at as int) =~= self.commands());
        while at > 0
            invariant
                at <= self.functions.len() <= u32::MAX,
                self.commands().len() == self.functions.len(),
                find_command(self.commands(), keyword@) == find_command(
                    self.commands().take(at as int),
                    keyword@,
                ),
            decreases at,
        {
            at -= 1;
            proof {
                let shorter = self.commands().take(at as int + 1);
                assert(shorter.drop_last() =~= self.commands().take(at as int));
                assert(shorter.last() == self.functions@[at as int]@);
            }
            if str_eq(self.functions[at].keyword.as_str(), keyword) {
                return Some(at as u32);
            }
        }
        None
    }

    /// Registers a command under `kw`, with the index that follows those in
    /// use. A command already registered under `kw` stays, but `kw` names the
    /// new one from now on.
    pub fn with_command(
        &mut self,
        kw: &str,
        func: FyfthFunc,
        broadcast_behaviors: &[FyfthBroadcastBehavior],
    ) -> (this: &mut Self)
        requires
            accepts_arity(func, broadcast_behaviors@.len()),
            old(self).commands().len() < u32::MAX,
        ensures
            this.commands() == old(self).commands().push(
                FyfthCommandSpec { keyword: kw@, func, behaviors: broadcast_behaviors@ },
            ),
            this.prefixes() == old(self).prefixes(),
            *final(self) == *final(this),
    {
        proof {
            use_type_invariant(&*self);
        }
        let mut behaviors: Vec<FyfthBroadcastBehavior> = Vec::new();
        let mut at: usize = 0;
        while at < broadcast_behaviors.len()
            invariant
                at <= broadcast_behaviors.len(),
                behaviors@ == broadcast_behaviors@.take(at as int),
            decreases broadcast_behaviors.len() - at,
        {
            behaviors.push(broadcast_behaviors[at]);
            at += 1;
            assert(broadcast_behaviors@.take(at as int) =~= broadcast_behaviors@.take(
                at as int - 1,
            ).push(broadcast_behaviors@[at as int - 1]));
        }
        assert(broadcast_behaviors@.take(at as int) =~= broadcast_behaviors@);
        let info = FnInfo {
            keyword: String::from_str(kw),
            func,
            broadcast_behaviors: behaviors,
        };
        let ghost before = self.commands();
        let ghost added = FyfthCommandSpec { keyword: kw@, func, behaviors: broadcast_behaviors@ };
        let mut functions: Vec<FnInfo> = Vec::new();
        core::mem::swap(&mut self.functions, &mut functions);
        functions.push(info);
        proof {
            let after = Seq::new(functions@.len(), |i: int| functions@[i]@);
            assert(after =~= before.push(added));
            assert forall|i: int| 0 <= i < after.len() implies accepts_arity(
                (#[trigger] after[i]).func,
                after[i].behaviors.len(),
            ) by {
                if i < before.len() {
                    assert(after[i] == before[i]);
                }
            }
        }
        self.functions = functions;
        assert(self.commands() =~= old(self).commands().push(
            FyfthCommandSpec { keyword: kw@, func, behaviors: broadcast_behaviors@ },
        ));
        self
    }

    /// Registers a prefix character.
    pub fn with_prefix(&mut self, prefix_char: char, parser: FyfthPrefixParser) -> (this: &mut Self)
        requires
            prefix_char != '"',
            find_prefix(old(self).prefixes(), prefix_char) is None,
        ensures
            this.prefixes() == old(self).prefixes().push(
                PrefixInfo { ch: prefix_char, parser },
            ),
            this.commands() == old(self).commands(),
            *final(self) == *final(this),
    {
        proof {
            use_type_invariant(&*self);
            lemma_find_prefix(self.prefixes@, prefix_char);
        }
        let mut prefixes: Vec<PrefixInfo> = Vec::new();
        core::mem::swap(&mut self.prefixes, &mut prefixes);
        prefixes.push(PrefixInfo { ch: prefix_char, parser });
        self.prefixes = prefixes;
        assert(self.commands() =~= old(self).commands());
        self
    }
}

/// Why two vocabularies cannot be merged.
#[derive(Debug, Clone, Copy, PartialEq, Eq, Structural)]
pub enum FyfthConflict {
    /// Both register a command under one keyword.
    Keyword,
    /// Both register one prefix character.
    Prefix,
}

impl FyfthLanguageExtension {
    /// Adds the commands and prefixes of `other`, its commands renumbered to
    /// follow those of `self`, unless both register one keyword or one prefix
    /// character: then `self` stays as it is.
    #[verifier::loop_isolation(false)]
    pub fn merge(&mut self, other: Self) -> (merged: Result<(), FyfthConflict>)
        requires
            old(self).commands().len() + other.commands().len() <= u32::MAX,
        ensures
            merged == if keywords_collide(old(self).commands(), other.commands()) {
                Err::<(), FyfthConflict>(FyfthConflict::Keyword)
            } else if prefixes_collide(old(self).prefixes(), other.prefixes()) {
                Err(FyfthConflict::Prefix)
            } else {
                Ok(())
            },
            merged is Err ==> final(self).commands() == old(self).commands(),
            merged is Err ==> final(self).prefixes() == old(self).prefixes(),
            merged is Ok ==> final(self).commands() == old(self).commands() + other.commands()
                && final(self).prefixes() == old(self).prefixes() + other.prefixes(),
    {
        proof {
            use_type_invariant(&*self);
            use_type_invariant(&other);
        }
        let ghost mine = self.commands();
        let ghost theirs = other.commands();
        let mut at: usize = 0;
        while at < other.functions.len()
            invariant
                at <= other.functions.len(),
                forall|i: int, j: int|
                    0 <= i < mine.len() && 0 <= j < at ==> #[trigger] mine[i].keyword
                        != #[trigger] theirs[j].keyword,
            decreases other.functions.len() - at,
        {
            let found = self.get_command_id(other.functions[at].keyword.as_str());
            proof {
                lemma_find_command(mine, theirs[at as int].keyword);
            }
            if found.is_some() {
                proof {
                    let i = find_command(mine, theirs[at as int].keyword)->0;
                    assert(mine[i].keyword == theirs[at as int].keyword);
                }
                return Err(FyfthConflict::Keyword);
            }
            at += 1;
        }
        let mut at: usize = 0;
        while at < other.prefixes.len()
            invariant
                at <= other.prefixes.len(),
                forall|i: int, j: int|
                    0 <= i < self.prefixes@.len() && 0 <= j < at ==> (
                    #[trigger] self.prefixes@[i]).ch != (#[trigger] other.prefixes@[j]).ch,
            decreases other.prefixes.len() - at,
        {
            let found = self.get_prefix(other.prefixes[at].ch);
            proof {
                lemma_find_prefix(self.prefixes@, other.prefixes@[at as int].ch);
            }
            if found.is_some() {
                proof {
                    let i = find_prefix(self.prefixes@, other.prefixes@[at as int].ch)->0;
                    assert(self.prefixes@[i].ch == other.prefixes@[at as int].ch);
                }
                return Err(FyfthConflict::Prefix);
            }
            at += 1;
        }
        let ghost my_prefixes = self.prefixes@;
        let ghost their_prefixes = other.prefixes@;
        let FyfthLanguageExtension { functions: mut added, prefixes: mut added_prefixes } = other;
        let mut functions: Vec<FnInfo> = Vec::new();
        let mut prefixes: Vec<PrefixInfo> = Vec::new();
        core::mem::swap(&mut self.functions, &mut functions);
        core::mem::swap(&mut self.prefixes, &mut prefixes);
        functions.append(&mut added);
        prefixes.append(&mut added_prefixes);
        proof {
            let after = Seq::new(functions@.len(), |i: int| functions@[i]@);
            assert(after =~= mine + theirs);
            assert(prefixes@ =~= my_prefixes + their_prefixes);
            assert forall|i: int| 0 <= i < after.len() implies accepts_arity(
                (#[trigger] after[i]).func,
                after[i].behaviors.len(),
            ) by {
                if i < mine.len() {
                    assert(after[i] == mine[i]);
                } else {
                    assert(after[i] == theirs[i - mine.len()]);
                }
            }
            assert forall|i: int, j: int| 0 <= i < j < prefixes@.len() implies (
            #[trigger] prefixes@[i]).ch != (#[trigger] prefixes@[j]).ch by {
                if j < my_prefixes.len() {
                    assert(my_prefixes[i].ch != my_prefixes[j].ch);
                } else if i < my_prefixes.len() {
                    assert(my_prefixes[i].ch != their_prefixes[j - my_prefixes.len()].ch);
                } else {
                    assert(their_prefixes[i - my_prefixes.len()].ch != their_prefixes[j
                        - my_prefixes.len()].ch);
                }
            }
            assert forall|i: int| 0 <= i < prefixes@.len() implies (#[trigger] prefixes@[i]).ch
                != '"' by {
                if i < my_prefixes.len() {
                    assert(my_prefixes[i].ch != '"');
                } else {
                    assert(their_prefixes[i - my_prefixes.len()].ch != '"');
                }
            }
        }
        self.prefixes = prefixes;
        self.functions = functions;
        Ok(())
    }
}

/// `count` arguments that are applied item by item.
pub open spec fn all_may_iter(count: nat) -> Seq<FyfthBroadcastBehavior> {
    Seq::new(count, |i: int| FyfthBroadcastBehavior::MayIter)
}

/// `count` arguments that are handed on as they are.
pub open spec fn all_ignore_iter(count: nat) -> Seq<FyfthBroadcastBehavior> {
    Seq::new(count, |i: int| FyfthBroadcastBehavior::IgnoreIter)
}

/// Two arguments: the first handed on as it is, the second applied item by item.
pub open spec fn ignore_then_may() -> Seq<FyfthBroadcastBehavior> {
    seq![FyfthBroadcastBehavior::IgnoreIter, FyfthBroadcastBehavior::MayIter]
}

fn repeated(behavior: FyfthBroadcastBehavior, count: usize) -> (list: Vec<FyfthBroadcastBehavior>)
    ensures
        list@ == Seq::new(count as nat, |i: int| behavior),
{
    let mut list: Vec<FyfthBroadcastBehavior> = Vec::new();
    while list.len() < count
        invariant
            list.len() <= count,
            forall|i: int| 0 <= i < list.len() ==> list@[i] == behavior,
        decreases count - list.len(),
    {
        list.push(behavior);
    }
    assert(list@ =~= Seq::new(count as nat, |i: int| behavior));
    list
}

fn may_iter(count: usize) -> (list: Vec<FyfthBroadcastBehavior>)
    ensures
        list@ == all_may_iter(count as nat),
{
    let list = repeated(FyfthBroadcastBehavior::MayIter, count);
    assert(list@ =~= all_may_iter(count as nat));
    list
}

fn ignore_iter(count: usize) -> (list: Vec<FyfthBroadcastBehavior>)
    ensures
        list@ == all_ignore_iter(count as nat),
{
    let list = repeated(FyfthBroadcastBehavior::IgnoreIter, count);
    assert(list@ =~= all_ignore_iter(count as nat));
    list
}

fn ignore_may() -> (list: Vec<FyfthBroadcastBehavior>)
    ensures
        list@ == ignore_then_may(),
{
    let list = vec![FyfthBroadcastBehavior::IgnoreIter, FyfthBroadcastBehavior::MayIter];
    assert(list@ =~= ignore_then_may());
    list
}

/// The commands of the base vocabulary, in the order of their indices.
pub open spec fn base_commands() -> Seq<FyfthCommandSpec> {
    seq![
        FyfthCommandSpec { keyword: "entities"@, func: FyfthFunc::Entities, behaviors: all_may_iter(0) },
        FyfthCommandSpec { keyword: "get"@, func: FyfthFunc::GetValue, behaviors: all_may_iter(2) },
        FyfthCommandSpec { keyword: "set"@, func: FyfthFunc::SetValue, behaviors: all_may_iter(3) },
        FyfthCommandSpec { keyword: "add"@, func: FyfthFunc::Add, behaviors: all_may_iter(2) },
        FyfthCommandSpec { keyword: "sub"@, func: FyfthFunc::Sub, behaviors: all_may_iter(2) },
        FyfthCommandSpec { keyword: "mul"@, func: FyfthFunc::Mul, behaviors: all_may_iter(2) },
        FyfthCommandSpec { keyword: "div"@, func: FyfthFunc::Div, behaviors: all_may_iter(2) },
        FyfthCommandSpec { keyword: "print"@, func: FyfthFunc::Print, behaviors: all_ignore_iter(1) },
        FyfthCommandSpec { keyword: "store"@, func: FyfthFunc::Store, behaviors: all_ignore_iter(2) },
        FyfthCommandSpec { keyword: "load"@, func: FyfthFunc::Load, behaviors: all_may_iter(1) },
        FyfthCommandSpec { keyword: "print_vars"@, func: FyfthFunc::PrintVars, behaviors: all_may_iter(0) },
        FyfthCommandSpec { keyword: "geq"@, func: FyfthFunc::Geq, behaviors: all_may_iter(2) },
        FyfthCommandSpec { keyword: "leq"@, func: FyfthFunc::Leq, behaviors: all_may_iter(2) },
        FyfthCommandSpec { keyword: "eq"@, func: FyfthFunc::Eq, behaviors: all_may_iter(2) },
        FyfthCommandSpec { keyword: "eqq"@, func: FyfthFunc::Eq, behaviors: all_ignore_iter(2) },
        FyfthCommandSpec { keyword: "not"@, func: FyfthFunc::Not, behaviors: all_may_iter(1) },
        FyfthCommandSpec { keyword: "name"@, func: FyfthFunc::Name, behaviors: all_may_iter(1) },
        FyfthCommandSpec { keyword: "pop"@, func: FyfthFunc::Pop, behaviors: all_ignore_iter(1) },
        FyfthCommandSpec { keyword: "index"@, func: FyfthFunc::Index, behaviors: ignore_then_may() },
        FyfthCommandSpec { keyword: "enum"@, func: FyfthFunc::Enum, behaviors: all_ignore_iter(1) },
        FyfthCommandSpec { keyword: "len"@, func: FyfthFunc::Len, behaviors: all_ignore_iter(1) },
        FyfthCommandSpec { keyword: "type"@, func: FyfthFunc::Type, behaviors: all_ignore_iter(1) },
        FyfthCommandSpec { keyword: "append"@, func: FyfthFunc::Append, behaviors: all_ignore_iter(2) },
        FyfthCommandSpec { keyword: "extend"@, func: FyfthFunc::Extend, behaviors: all_ignore_iter(2) },
        FyfthCommandSpec { keyword: "reverse"@, func: FyfthFunc::Reverse, behaviors: all_ignore_iter(1) },
        FyfthCommandSpec { keyword: "filter"@, func: FyfthFunc::Filter, behaviors: all_may_iter(2) },
        FyfthCommandSpec { keyword: "select"@, func: FyfthFunc::Select, behaviors: all_may_iter(3) },
        FyfthCommandSpec { keyword: "mod"@, func: FyfthFunc::Mod, behaviors: all_may_iter(2) },
        FyfthCommandSpec { keyword: "vec2"@, func: FyfthFunc::Vec2, behaviors: all_may_iter(2) },
        FyfthCommandSpec { keyword: "vec3"@, func: FyfthFunc::Vec3, behaviors: all_may_iter(3) },
        FyfthCommandSpec { keyword: "quat"@, func: FyfthFunc::Quat, behaviors: all_may_iter(4) },
        FyfthCommandSpec { keyword: "fuzzy"@, func: FyfthFunc::Fuzzy, behaviors: all_may_iter(2) },
        FyfthCommandSpec { keyword: "regex"@, func: FyfthFunc::Regex, behaviors: all_may_iter(2) },
        FyfthCommandSpec { keyword: "sin"@, func: FyfthFunc::Sin, behaviors: all_may_iter(1) },
        FyfthCommandSpec { keyword: "cos"@, func: FyfthFunc::Cos, behaviors: all_may_iter(1) },
        FyfthCommandSpec { keyword: "tan"@, func: FyfthFunc::Tan, behaviors: all_may_iter(1) },
        FyfthCommandSpec { keyword: "atan"@, func: FyfthFunc::Atan, behaviors: all_may_iter(1) },
        FyfthCommandSpec { keyword: "atan2"@, func: FyfthFunc::Atan2, behaviors: all_may_iter(2) },
    ]
}

/// The prefixes of the base vocabulary.
pub open spec fn base_prefixes() -> Seq<PrefixInfo> {
    seq![
        PrefixInfo { ch: '*', parser: FyfthPrefixParser::Load },
        PrefixInfo { ch: '$', parser: FyfthPrefixParser::QueueMacro },
        PrefixInfo { ch: '@', parser: FyfthPrefixParser::FuzzyEntity },
    ]
}

impl FyfthLanguageExtension {
    /// The base vocabulary.
    pub fn base_fyfth() -> (lang: Self)
        ensures
            lang.commands() == base_commands(),
            lang.prefixes() == base_prefixes(),
    {
        let mut lang = FyfthLanguageExtension::new_empty();
        assert(lang.commands() =~= Seq::<FyfthCommandSpec>::empty());
        assert(lang.prefixes() =~= Seq::<PrefixInfo>::empty());
        let behaviors = may_iter(0);
        lang.with_command("entities", FyfthFunc::Entities, behaviors.as_slice());
        let behaviors = may_iter(2);
        lang.with_command("get", FyfthFunc::GetValue, behaviors.as_slice());
        let behaviors = may_iter(3);
        lang.with_command("set", FyfthFunc::SetValue, behaviors.as_slice());
        let behaviors = may_iter(2);
        lang.with_command("add", FyfthFunc::Add, behaviors.as_slice());
        let behaviors = may_iter(2);
        lang.with_command("sub", FyfthFunc::Sub, behaviors.as_slice());
        let behaviors = may_iter(2);
        lang.with_command("mul", FyfthFunc::Mul, behaviors.as_slice());
        let behaviors = may_iter(2);
        lang.with_command("div", FyfthFunc::Div, behaviors.as_slice());
        let behaviors = ignore_iter(1);
        lang.with_command("print", FyfthFunc::Print, behaviors.as_slice());
        let behaviors = ignore_iter(2);
        lang.with_command("store", FyfthFunc::Store, behaviors.as_slice());
        let behaviors = may_iter(1);
        lang.with_command("load", FyfthFunc::Load, behaviors.as_slice());
        let behaviors = may_iter(0);
        lang.with_command("print_vars", FyfthFunc::PrintVars, behaviors.as_slice());
        let behaviors = may_iter(2);
        lang.with_command("geq", FyfthFunc::Geq, behaviors.as_slice());
        let behaviors = may_iter(2);
        lang.with_command("leq", FyfthFunc::Leq, behaviors.as_slice());
        let behaviors = may_iter(2);
        lang.with_command("eq", FyfthFunc::Eq, behaviors.as_slice());
        let behaviors = ignore_iter(2);
        lang.with_command("eqq", FyfthFunc::Eq, behaviors.as_slice());
        let behaviors = may_iter(1);
        lang.with_command("not", FyfthFunc::Not, behaviors.as_slice());
        let behaviors = may_iter(1);
        lang.with_command("name", FyfthFunc::Name, behaviors.as_slice());
        let behaviors = ignore_iter(1);
        lang.with_command("pop", FyfthFunc::Pop, behaviors.as_slice());
        let behaviors = ignore_may();
        lang.with_command("index", FyfthFunc::Index, behaviors.as_slice());
        let behaviors = ignore_iter(1);
        lang.with_command("enum", FyfthFunc::Enum, behaviors.as_slice());
        let behaviors = ignore_iter(1);
        lang.with_command("len", FyfthFunc::Len, behaviors.as_slice());
        let behaviors = ignore_iter(1);
        lang.with_command("type", FyfthFunc::Type, behaviors.as_slice());
        let behaviors = ignore_iter(2);
        lang.with_command("append", FyfthFunc::Append, behaviors.as_slice());
        let behaviors = ignore_iter(2);
        lang.with_command("extend", FyfthFunc::Extend, behaviors.as_slice());
        let behaviors = ignore_iter(1);
        lang.with_command("reverse", FyfthFunc::Reverse, behaviors.as_slice());
        let behaviors = may_iter(2);
        lang.with_command("filter", FyfthFunc::Filter, behaviors.as_slice());
        let behaviors = may_iter(3);
        lang.with_command("select", FyfthFunc::Select, behaviors.as_slice());
        let behaviors = may_iter(2);
        lang.with_command("mod", FyfthFunc::Mod, behaviors.as_slice());
        let behaviors = may_iter(2);
        lang.with_command("vec2", FyfthFunc::Vec2, behaviors.as_slice());
        let behaviors = may_iter(3);
        lang.with_command("vec3", FyfthFunc::Vec3, behaviors.as_slice());
        let behaviors = may_iter(4);
        lang.with_command("quat", FyfthFunc::Quat, behaviors.as_slice());
        let behaviors = may_iter(2);
        lang.with_command("fuzzy", FyfthFunc::Fuzzy, behaviors.as_slice());
        let behaviors = may_iter(2);
        lang.with_command("regex", FyfthFunc::Regex, behaviors.as_slice());
        let behaviors = may_iter(1);
        lang.with_command("sin", FyfthFunc::Sin, behaviors.as_slice());
        let behaviors = may_iter(1);
        lang.with_command("cos", FyfthFunc::Cos, behaviors.as_slice());
        let behaviors = may_iter(1);
        lang.with_command("tan", FyfthFunc::Tan, behaviors.as_slice());
        let behaviors = may_iter(1);
        lang.with_command("atan", FyfthFunc::Atan, behaviors.as_slice());
        let behaviors = may_iter(2);
        lang.with_command("atan2", FyfthFunc::Atan2, behaviors.as_slice());
        lang.with_prefix('*', FyfthPrefixParser::Load);
        assert(find_prefix(lang.prefixes(), '$') is None) by {
            reveal_with_fuel(find_prefix, 4);
        }
        lang.with_prefix('$', FyfthPrefixParser::QueueMacro);
        assert(find_prefix(lang.prefixes(), '@') is None) by {
            reveal_with_fuel(find_prefix, 4);
        }
        lang.with_prefix('@', FyfthPrefixParser::FuzzyEntity);
        lang
    }
}

impl Clone for FyfthLanguageExtension {
    /// A copy with the same commands and prefixes.
    #[verifier::loop_isolation(false)]
    fn clone(&self) -> (copy: FyfthLanguageExtension)
        ensures
            copy.commands() == self.commands(),
            copy.prefixes() == self.prefixes(),
    {
        proof {
            use_type_invariant(self);
        }
        let mut functions: Vec<FnInfo> = Vec::new();
        let mut at: usize = 0;
        while at < self.functions.len()
            invariant
                at <= self.functions.len(),
                functions.len() == at,
                forall|i: int| 0 <= i < at ==> functions@[i]@ == self.functions@[i]@,
            decreases self.functions.len() - at,
        {
            functions.push(self.functions[at].clone());
            at += 1;
        }
        let mut prefixes: Vec<PrefixInfo> = Vec::new();
        let mut at: usize = 0;
        while at < self.prefixes.len()
            invariant
                at <= self.prefixes.len(),
                prefixes@ == self.prefixes@.take(at as int),
            decreases self.prefixes.len() - at,
        {
            prefixes.push(self.prefixes[at]);
            at += 1;
            assert(self.prefixes@.take(at as int) =~= self.prefixes@.take(at as int - 1).push(
                self.prefixes@[at as int - 1],
            ));
        }
        proof {
            assert(self.prefixes@.take(at as int) =~= self.prefixes@);
            let after = Seq::new(functions@.len(), |i: int| functions@[i]@);
            assert(after =~= self.commands());
        }
        FyfthLanguageExtension { functions, prefixes }
    }
}

/// Calls `Arc::clone`: another pointer to the same vocabulary.
#[verifier::external_body]
pub(crate) fn share(lang: &std::sync::Arc<FyfthLanguageExtension>) -> (shared: std::sync::Arc<
    FyfthLanguageExtension,
>)
    ensures
        *shared == **lang,
{
    std::sync::Arc::clone(lang)
}

} // verus!
