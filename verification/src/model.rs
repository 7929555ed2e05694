//! The mathematical model of the registry: what an entry and a registry are,
//! what each operation makes of a registry, and what it means for one to be
//! well formed.

use vstd::prelude::*;

verus! {

/// An entry of the registry: a command line and the extensions it opens, in
/// the order in which they were registered.
#[verifier::ext_equal]
pub struct ToolView {
    pub command: Seq<char>,
    pub extensions: Seq<Seq<char>>,
}

/// A registry: the version stamp as it is persisted, and the entries in
/// the order in which they were created.
#[verifier::ext_equal]
pub struct ConfigView {
    pub version_bits: u64,
    pub tools: Seq<ToolView>,
}

impl ToolView {
    /// The entry is registered for `extension`.
    pub open spec fn handles(self, extension: Seq<char>) -> bool {
        self.extensions.contains(extension)
    }

    /// The entry with `extension` registered after those it already has.
    pub open spec fn with_extension(self, extension: Seq<char>) -> ToolView {
        ToolView { command: self.command, extensions: self.extensions.push(extension) }
    }

    /// The entry without the first occurrence of `extension`.
    pub open spec fn without_extension(self, extension: Seq<char>) -> ToolView {
        ToolView { command: self.command, extensions: self.extensions.remove_value(extension) }
    }
}

impl ConfigView {
    /// The registry with no entries.
    pub open spec fn empty(version_bits: u64) -> ConfigView {
        ConfigView { version_bits, tools: Seq::empty() }
    }

    /// Some entry is registered for `extension`.
    pub open spec fn handled(self, extension: Seq<char>) -> bool {
        exists|i: int| 0 <= i < self.tools.len() && (#[trigger] self.tools[i]).handles(extension)
    }

    /// Entry `i` is registered for `extension` and no earlier entry is.
    pub open spec fn is_first_handler(self, extension: Seq<char>, i: int) -> bool {
        &&& 0 <= i < self.tools.len()
        &&& self.tools[i].handles(extension)
        &&& forall|j: int| 0 <= j < i ==> !(#[trigger] self.tools[j]).handles(extension)
    }

    /// Entry `i` is registered for `extension` and no later entry is.
    pub open spec fn is_last_handler(self, extension: Seq<char>, i: int) -> bool {
        &&& 0 <= i < self.tools.len()
        &&& self.tools[i].handles(extension)
        &&& forall|j: int|
            i < j < self.tools.len() ==> !(#[trigger] self.tools[j]).handles(extension)
    }

    /// The index of the first entry registered for `extension`, if there is one.
    pub open spec fn first_handler(self, extension: Seq<char>) -> int {
        choose|i: int| self.is_first_handler(extension, i)
    }

    /// The index of the last entry registered for `extension`, if there is one.
    pub open spec fn last_handler(self, extension: Seq<char>) -> int {
        choose|i: int| self.is_last_handler(extension, i)
    }

    /// The command that opens `extension`: that of the first entry registered
    /// for it.
    pub open spec fn lookup(self, extension: Seq<char>) -> Option<Seq<char>> {
        if self.handled(extension) {
            Some(self.tools[self.first_handler(extension)].command)
        } else {
            None
        }
    }

    /// Some entry has the command line `command`.
    pub open spec fn has_command(self, command: Seq<char>) -> bool {
        exists|i: int| 0 <= i < self.tools.len() && (#[trigger] self.tools[i]).command == command
    }

    /// Entry `i` has the command line `command` and no earlier entry has.
    pub open spec fn is_first_with_command(self, command: Seq<char>, i: int) -> bool {
        &&& 0 <= i < self.tools.len()
        &&& self.tools[i].command == command
        &&& forall|j: int| 0 <= j < i ==> (#[trigger] self.tools[j]).command != command
    }

    /// The index of the first entry with the command line `command`, if there
    /// is one.
    pub open spec fn command_index(self, command: Seq<char>) -> int {
        choose|i: int| self.is_first_with_command(command, i)
    }

    /// The registry after `extension` was registered for `command`. An
    /// extension that some entry already has stays where it is; otherwise it
    /// joins the entry of `command`, or a new entry at the end.
    pub open spec fn with_association(
        self,
        command: Seq<char>,
        extension: Seq<char>,
    ) -> ConfigView {
        if self.handled(extension) {
            self
        } else if self.has_command(command) {
            let i = self.command_index(command);
            ConfigView {
                version_bits: self.version_bits,
                tools: self.tools.update(i, self.tools[i].with_extension(extension)),
            }
        } else {
            ConfigView {
                version_bits: self.version_bits,
                tools: self.tools.push(ToolView { command, extensions: seq![extension] }),
            }
        }
    }

    /// The registry after each pair of `calls`, a command and an extension,
    /// was registered in turn.
    pub open spec fn with_associations(self, calls: Seq<(Seq<char>, Seq<char>)>) -> ConfigView
        decreases calls.len(),
    {
        if calls.len() == 0 {
            self
        } else {
            self.with_associations(calls.drop_last()).with_association(
                calls.last().0,
                calls.last().1,
            )
        }
    }

    /// The registry without the first entry of `command`; the registry
    /// itself where no entry has that command.
    pub open spec fn without_command(self, command: Seq<char>) -> ConfigView {
        if self.has_command(command) {
            ConfigView {
                version_bits: self.version_bits,
                tools: self.tools.remove(self.command_index(command)),
            }
        } else {
            self
        }
    }

    /// The registry after `extension` was taken from the last entry
    /// registered for it: the entry loses the extension, and leaves the
    /// registry if it was its only one. The registry itself where no entry
    /// is registered for `extension`.
    pub open spec fn without_extension(self, extension: Seq<char>) -> ConfigView {
        if self.handled(extension) {
            let i = self.last_handler(extension);
            let rest = self.tools[i].without_extension(extension);
            ConfigView {
                version_bits: self.version_bits,
                tools: if rest.extensions.len() == 0 {
                    self.tools.remove(i)
                } else {
                    self.tools.update(i, rest)
                },
            }
        } else {
            self
        }
    }

    /// No extension occurs twice, neither in two entries nor within one.
    pub open spec fn extensions_unique(self) -> bool {
        forall|i: int, a: int, j: int, b: int|
            #![trigger self.tools[i].extensions[a], self.tools[j].extensions[b]]
            0 <= i < self.tools.len() && 0 <= a < self.tools[i].extensions.len() && 0 <= j
                < self.tools.len() && 0 <= b < self.tools[j].extensions.len()
                && self.tools[i].extensions[a] == self.tools[j].extensions[b] ==> i == j && a == b
    }

    /// Every entry has at least one extension.
    pub open spec fn entries_nonempty(self) -> bool {
        forall|i: int| 0 <= i < self.tools.len() ==> (#[trigger] self.tools[i]).extensions.len() > 0
    }

    /// No two entries have the same command line.
    pub open spec fn commands_unique(self) -> bool {
        forall|i: int, j: int|
            #![trigger self.tools[i], self.tools[j]]
            0 <= i < self.tools.len() && 0 <= j < self.tools.len() && self.tools[i].command
                == self.tools[j].command ==> i == j
    }

    /// The registry is consistent: an extension determines its command, no
    /// entry is empty, and a command has one entry.
    pub open spec fn well_formed(self) -> bool {
        &&& self.extensions_unique()
        &&& self.entries_nonempty()
        &&& self.commands_unique()
    }
}

/// At most one index is that of the first entry registered for an extension.
pub proof fn lemma_first_handler_is(c: ConfigView, extension: Seq<char>, i: int)
    requires
        c.is_first_handler(extension, i),
    ensures
        c.handled(extension),
        c.first_handler(extension) == i,
{
    let k = c.first_handler(extension);
    assert(c.is_first_handler(extension, k));
    if k < i {
        assert(!c.tools[k].handles(extension));
    } else if i < k {
        assert(!c.tools[i].handles(extension));
    }
}

/// At most one index is that of the last entry registered for an extension.
pub proof fn lemma_last_handler_is(c: ConfigView, extension: Seq<char>, i: int)
    requires
        c.is_last_handler(extension, i),
    ensures
        c.handled(extension),
        c.last_handler(extension) == i,
{
    let k = c.last_handler(extension);
    assert(c.is_last_handler(extension, k));
    if k < i {
        assert(!c.tools[i].handles(extension));
    } else if i < k {
        assert(!c.tools[k].handles(extension));
    }
}

/// At most one index is that of the first entry with a command line.
pub proof fn lemma_command_index_is(c: ConfigView, command: Seq<char>, i: int)
    requires
        c.is_first_with_command(command, i),
    ensures
        c.has_command(command),
        c.command_index(command) == i,
{
    let k = c.command_index(command);
    assert(c.is_first_with_command(command, k));
    if k < i {
        assert(c.tools[k].command != command);
    } else if i < k {
        assert(c.tools[i].command != command);
    }
}

/// Where some entry has a command line, one of them is the first.
pub proof fn lemma_command_index_exists(c: ConfigView, command: Seq<char>)
    requires
        c.has_command(command),
    ensures
        c.is_first_with_command(command, c.command_index(command)),
{
    let w = choose|i: int| 0 <= i < c.tools.len() && (#[trigger] c.tools[i]).command == command;
    lemma_first_with_command_up_to(c, command, w);
}

proof fn lemma_first_with_command_up_to(c: ConfigView, command: Seq<char>, w: int)
    requires
        0 <= w < c.tools.len(),
        c.tools[w].command == command,
    ensures
        exists|i: int| c.is_first_with_command(command, i),
    decreases w,
{
    if exists|j: int| 0 <= j < w && (#[trigger] c.tools[j]).command == command {
        let j = choose|j: int| 0 <= j < w && (#[trigger] c.tools[j]).command == command;
        lemma_first_with_command_up_to(c, command, j);
    } else {
        assert(c.is_first_with_command(command, w));
    }
}

/// Where some entry is registered for an extension, one of them is the
/// first and one of them is the last.
pub proof fn lemma_handlers_exist(c: ConfigView, extension: Seq<char>)
    requires
        c.handled(extension),
    ensures
        c.is_first_handler(extension, c.first_handler(extension)),
        c.is_last_handler(extension, c.last_handler(extension)),
{
    let w = choose|i: int| 0 <= i < c.tools.len() && (#[trigger] c.tools[i]).handles(extension);
    lemma_first_handler_up_to(c, extension, w);
    lemma_last_handler_from(c, extension, w);
}

proof fn lemma_first_handler_up_to(c: ConfigView, extension: Seq<char>, w: int)
    requires
        0 <= w < c.tools.len(),
        c.tools[w].handles(extension),
    ensures
        exists|i: int| c.is_first_handler(extension, i),
    decreases w,
{
    if exists|j: int| 0 <= j < w && (#[trigger] c.tools[j]).handles(extension) {
        let j = choose|j: int| 0 <= j < w && (#[trigger] c.tools[j]).handles(extension);
        lemma_first_handler_up_to(c, extension, j);
    } else {
        assert(c.is_first_handler(extension, w));
    }
}

proof fn lemma_last_handler_from(c: ConfigView, extension: Seq<char>, w: int)
    requires
        0 <= w < c.tools.len(),
        c.tools[w].handles(extension),
    ensures
        exists|i: int| c.is_last_handler(extension, i),
    decreases c.tools.len() - w,
{
    if exists|j: int| w < j < c.tools.len() && (#[trigger] c.tools[j]).handles(extension) {
        let j = choose|j: int| w < j < c.tools.len() && (#[trigger] c.tools[j]).handles(extension);
        lemma_last_handler_from(c, extension, j);
    } else {
        assert(c.is_last_handler(extension, w));
    }
}

} // verus!
