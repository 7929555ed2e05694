//! What holds of the registry's operations together, whatever the registry
//! and the arguments.

use vstd::prelude::*;
use crate::invariants::lemma_add_keeps_well_formed;
use crate::model::{
    ConfigView, ToolView, lemma_command_index_exists, lemma_command_index_is,
    lemma_first_handler_is, lemma_handlers_exist, lemma_last_handler_is,
};

verus! {

/// However many extensions are registered one after another in a registry
/// where no extension occurs twice, none occurs twice after any of the
/// registrations: not after the first `n` of them, whatever `n` is.
pub proof fn lemma_adds_keep_extensions_unique(
    start: ConfigView,
    calls: Seq<(Seq<char>, Seq<char>)>,
    n: int,
)
    requires
        start.extensions_unique(),
        0 <= n <= calls.len(),
    ensures
        start.with_associations(calls.take(n)).extensions_unique(),
{
    lemma_adds_keep_well_formed(start, calls.take(n));
}

/// Registering a sequence of extensions keeps each condition of a
/// consistent registry that held at the start.
pub proof fn lemma_adds_keep_well_formed(start: ConfigView, calls: Seq<(Seq<char>, Seq<char>)>)
    ensures
        start.extensions_unique() ==> start.with_associations(calls).extensions_unique(),
        start.entries_nonempty() ==> start.with_associations(calls).entries_nonempty(),
        start.commands_unique() ==> start.with_associations(calls).commands_unique(),
        start.well_formed() ==> start.with_associations(calls).well_formed(),
    decreases calls.len(),
{
    if calls.len() > 0 {
        lemma_adds_keep_well_formed(start, calls.drop_last());
        lemma_add_keeps_well_formed(
            start.with_associations(calls.drop_last()),
            calls.last().0,
            calls.last().1,
        );
    }
}

/// The registry with no entries is consistent, so every registry built
/// from it by registrations alone is.
pub proof fn lemma_built_from_empty_is_well_formed(
    version_bits: u64,
    calls: Seq<(Seq<char>, Seq<char>)>,
)
    ensures
        ConfigView::empty(version_bits).with_associations(calls).well_formed(),
{
    lemma_adds_keep_well_formed(ConfigView::empty(version_bits), calls);
}

/// Once an extension has been registered, some entry has it: the entry
/// that had it before, else the first entry of the command.
pub proof fn lemma_add_registers(c: ConfigView, command: Seq<char>, extension: Seq<char>)
    ensures
        c.with_association(command, extension).handled(extension),
        c.with_association(command, extension).lookup(extension) == if c.handled(extension) {
            c.lookup(extension)
        } else {
            Some(command)
        },
{
    let d = c.with_association(command, extension);
    if c.handled(extension) {
    } else if c.has_command(command) {
        lemma_command_index_exists(c, command);
        let k = c.command_index(command);
        let grown = c.tools[k].extensions.push(extension);
        assert(grown[grown.len() - 1] == extension);
        assert(d.tools[k].handles(extension));
        assert forall|j: int| 0 <= j < k implies !(#[trigger] d.tools[j]).handles(extension) by {
            assert(d.tools[j] == c.tools[j]);
        }
        lemma_first_handler_is(d, extension, k);
    } else {
        let n = c.tools.len() as int;
        assert(seq![extension][0] == extension);
        assert(d.tools[n].handles(extension));
        assert forall|j: int| 0 <= j < n implies !(#[trigger] d.tools[j]).handles(extension) by {
            assert(d.tools[j] == c.tools[j]);
        }
        lemma_first_handler_is(d, extension, n);
    }
}

/// Registering the same extension for the same command a second time
/// changes nothing.
pub proof fn lemma_add_is_idempotent(c: ConfigView, command: Seq<char>, extension: Seq<char>)
    ensures
        c.with_association(command, extension).with_association(command, extension)
            == c.with_association(command, extension),
{
    lemma_add_registers(c, command, extension);
}

/// An extension that some entry has stays with its command, whichever
/// command it is registered for afterwards.
pub proof fn lemma_add_of_registered_extension(
    c: ConfigView,
    command: Seq<char>,
    extension: Seq<char>,
)
    requires
        c.handled(extension),
    ensures
        c.with_association(command, extension) == c,
        c.with_association(command, extension).lookup(extension) == c.lookup(extension),
{
}

/// Registering an extension leaves every other extension with the command
/// it had, or with none.
pub proof fn lemma_add_keeps_other_lookups(
    c: ConfigView,
    command: Seq<char>,
    extension: Seq<char>,
    other: Seq<char>,
)
    requires
        other != extension,
    ensures
        c.with_association(command, extension).lookup(other) == c.lookup(other),
{
    let d = c.with_association(command, extension);
    if c.handled(extension) {
    } else if c.has_command(command) {
        lemma_command_index_exists(c, command);
        let k = c.command_index(command);
        assert(d.tools.len() == c.tools.len());
        assert forall|j: int| 0 <= j < c.tools.len() implies (#[trigger] d.tools[j]).handles(other)
            == c.tools[j].handles(other) && d.tools[j].command == c.tools[j].command by {
            lemma_push_keeps_other(c.tools[j].extensions, extension, other);
        }
        lemma_same_handlers_same_lookup(c, d, other);
    } else {
        let n = c.tools.len() as int;
        assert forall|j: int| 0 <= j < n implies (#[trigger] d.tools[j]) == c.tools[j] by {}
        assert(!d.tools[n].handles(other)) by {
            if d.tools[n].handles(other) {
                let a = choose|a: int|
                    0 <= a < d.tools[n].extensions.len() && d.tools[n].extensions[a] == other;
                assert(d.tools[n].extensions[a] == extension);
            }
        }
        if c.handled(other) {
            lemma_handlers_exist(c, other);
            let f = c.first_handler(other);
            assert(d.tools[f].handles(other));
            assert forall|j: int| 0 <= j < f implies !(#[trigger] d.tools[j]).handles(other) by {
                assert(d.tools[j] == c.tools[j]);
            }
            lemma_first_handler_is(d, other, f);
        } else {
            if d.handled(other) {
                let w = choose|i: int|
                    0 <= i < d.tools.len() && (#[trigger] d.tools[i]).handles(other);
                if w < n {
                    assert(d.tools[w] == c.tools[w]);
                    assert(c.tools[w].handles(other));
                }
            }
        }
    }
}

/// An extension is among those of a list with one more at its end exactly
/// if it was in the list or is the added one.
proof fn lemma_push_keeps_other(list: Seq<Seq<char>>, added: Seq<char>, other: Seq<char>)
    requires
        other != added,
    ensures
        list.push(added).contains(other) == list.contains(other),
{
    if list.contains(other) {
        let a = choose|a: int| 0 <= a < list.len() && list[a] == other;
        assert(list.push(added)[a] == other);
    }
    if list.push(added).contains(other) {
        let a = choose|a: int| 0 <= a < list.push(added).len() && list.push(added)[a] == other;
        assert(list[a] == other);
    }
}

/// Two registries of equal length whose entries agree on their command and
/// on whether they have an extension resolve it alike.
proof fn lemma_same_handlers_same_lookup(c: ConfigView, d: ConfigView, extension: Seq<char>)
    requires
        c.tools.len() == d.tools.len(),
        forall|j: int|
            0 <= j < c.tools.len() ==> (#[trigger] d.tools[j]).handles(extension)
                == c.tools[j].handles(extension) && d.tools[j].command == c.tools[j].command,
    ensures
        c.lookup(extension) == d.lookup(extension),
{
    if c.handled(extension) {
        lemma_handlers_exist(c, extension);
        let f = c.first_handler(extension);
        assert(d.tools[f].handles(extension));
        assert forall|j: int| 0 <= j < f implies !(#[trigger] d.tools[j]).handles(extension) by {
            assert(!c.tools[j].handles(extension));
        }
        lemma_first_handler_is(d, extension, f);
    } else {
        if d.handled(extension) {
            let w = choose|i: int|
                0 <= i < d.tools.len() && (#[trigger] d.tools[i]).handles(extension);
            assert(c.tools[w].handles(extension));
        }
    }
}

/// Two extensions registered for one command in the empty registry make
/// one entry that has both, in the order of their registration.
pub proof fn lemma_add_merges(
    version_bits: u64,
    command: Seq<char>,
    first: Seq<char>,
    second: Seq<char>,
)
    requires
        first != second,
    ensures
        ConfigView::empty(version_bits).with_association(command, first).with_association(
            command,
            second,
        ) == (ConfigView {
            version_bits,
            tools: seq![ToolView { command, extensions: seq![first, second] }],
        }),
{
    let e = ConfigView::empty(version_bits);
    let one = e.with_association(command, first);
    assert(!e.handled(first));
    assert(!e.has_command(command));
    assert(one.tools =~= seq![ToolView { command, extensions: seq![first] }]);
    assert(!one.handled(second)) by {
        if one.handled(second) {
            let w = choose|i: int|
                0 <= i < one.tools.len() && (#[trigger] one.tools[i]).handles(second);
            let a = choose|a: int|
                0 <= a < one.tools[w].extensions.len() && one.tools[w].extensions[a] == second;
            assert(one.tools[w].extensions[a] == first);
        }
    }
    assert(one.is_first_with_command(command, 0));
    lemma_command_index_is(one, command, 0);
    let two = one.with_association(command, second);
    assert(two.tools[0].extensions =~= seq![first, second]);
    assert(two.tools =~= seq![ToolView { command, extensions: seq![first, second] }]);
}

/// Taking an extension from the entry that has no other removes the
/// entry: a registration that made a new entry is undone by removing its
/// extension.
pub proof fn lemma_remove_only_extension(c: ConfigView, command: Seq<char>, extension: Seq<char>)
    requires
        !c.handled(extension),
        !c.has_command(command),
    ensures
        c.with_association(command, extension).without_extension(extension) == c,
{
    let d = c.with_association(command, extension);
    let n = c.tools.len() as int;
    assert(d.tools[n].extensions[0] == extension);
    assert(d.tools[n].handles(extension));
    lemma_last_handler_is(d, extension, n);
    d.tools[n].extensions.index_of_first_ensures(extension);
    assert(d.tools[n].without_extension(extension).extensions.len() == 0);
    assert(d.tools.remove(n) =~= c.tools);
}

/// Where no extension occurs twice, one entry at most is registered for an
/// extension: the entry that a lookup finds is the entry that loses the
/// extension when it is removed.
pub proof fn lemma_one_handler(c: ConfigView, extension: Seq<char>, i: int, j: int)
    requires
        c.extensions_unique(),
        0 <= i < c.tools.len(),
        0 <= j < c.tools.len(),
        c.tools[i].handles(extension),
        c.tools[j].handles(extension),
    ensures
        i == j,
        c.first_handler(extension) == i,
        c.last_handler(extension) == i,
{
    let a = choose|a: int|
        0 <= a < c.tools[i].extensions.len() && c.tools[i].extensions[a] == extension;
    let b = choose|b: int|
        0 <= b < c.tools[j].extensions.len() && c.tools[j].extensions[b] == extension;
    assert(c.tools[i].extensions[a] == c.tools[j].extensions[b]);
    lemma_handlers_exist(c, extension);
    let f = c.first_handler(extension);
    let fa = choose|fa: int|
        0 <= fa < c.tools[f].extensions.len() && c.tools[f].extensions[fa] == extension;
    assert(c.tools[f].extensions[fa] == c.tools[i].extensions[a]);
    let l = c.last_handler(extension);
    let la = choose|la: int|
        0 <= la < c.tools[l].extensions.len() && c.tools[l].extensions[la] == extension;
    assert(c.tools[l].extensions[la] == c.tools[i].extensions[a]);
}

/// What is not registered cannot be removed: the registry stays as it is.
pub proof fn lemma_remove_of_missing(c: ConfigView, command: Seq<char>, extension: Seq<char>)
    ensures
        !c.has_command(command) ==> c.without_command(command) == c,
        !c.handled(extension) ==> c.without_extension(extension) == c,
        !c.handled(extension) ==> c.lookup(extension) is None,
{
}

/// An extension that was removed from a registry where no extension
/// occurs twice has no command any more.
pub proof fn lemma_removed_extension_is_gone(c: ConfigView, extension: Seq<char>)
    requires
        c.extensions_unique(),
    ensures
        !c.without_extension(extension).handled(extension),
        c.without_extension(extension).lookup(extension) is None,
{
    let d = c.without_extension(extension);
    if c.handled(extension) {
        lemma_handlers_exist(c, extension);
        let k = c.last_handler(extension);
        let exts = c.tools[k].extensions;
        exts.index_of_first_ensures(extension);
        let p = exts.index_of_first(extension).unwrap();
        let rest = exts.remove_value(extension);
        assert(rest == exts.remove(p));
        if d.handled(extension) {
            let w = choose|i: int|
                0 <= i < d.tools.len() && (#[trigger] d.tools[i]).handles(extension);
            let a = choose|a: int|
                0 <= a < d.tools[w].extensions.len() && d.tools[w].extensions[a] == extension;
            if rest.len() == 0 {
                let w0 = if w < k { w } else { w + 1 };
                assert(d.tools[w] == c.tools[w0]);
                assert(c.tools[w0].extensions[a] == c.tools[k].extensions[p]);
            } else {
                if w == k {
                    let a0 = if a < p { a } else { a + 1 };
                    assert(rest[a] == exts[a0]);
                    assert(c.tools[k].extensions[a0] == c.tools[k].extensions[p]);
                } else {
                    assert(d.tools[w] == c.tools[w]);
                    assert(c.tools[w].extensions[a] == c.tools[k].extensions[p]);
                }
            }
        }
    }
}

/// A command whose entry was removed from a registry where a command has
/// one entry has no entry any more.
pub proof fn lemma_removed_command_is_gone(c: ConfigView, command: Seq<char>)
    requires
        c.commands_unique(),
    ensures
        !c.without_command(command).has_command(command),
{
    let d = c.without_command(command);
    if c.has_command(command) {
        lemma_command_index_exists(c, command);
        let k = c.command_index(command);
        if d.has_command(command) {
            let w = choose|i: int|
                0 <= i < d.tools.len() && (#[trigger] d.tools[i]).command == command;
            let w0 = if w < k { w } else { w + 1 };
            assert(d.tools[w] == c.tools[w0]);
            assert(c.tools[w0].command == c.tools[k].command);
        }
    }
}

} // verus!
