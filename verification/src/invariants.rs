//! The operations keep a consistent registry consistent.

use vstd::prelude::*;
use crate::model::{ConfigView, ToolView, lemma_command_index_exists, lemma_handlers_exist};

verus! {

/// Registering an extension keeps each of the three conditions of a
/// consistent registry that held before.
pub proof fn lemma_add_keeps_well_formed(c: ConfigView, command: Seq<char>, extension: Seq<char>)
    ensures
        c.extensions_unique() ==> c.with_association(command, extension).extensions_unique(),
        c.entries_nonempty() ==> c.with_association(command, extension).entries_nonempty(),
        c.commands_unique() ==> c.with_association(command, extension).commands_unique(),
        c.well_formed() ==> c.with_association(command, extension).well_formed(),
{
    let d = c.with_association(command, extension);
    if c.handled(extension) {
    } else if c.has_command(command) {
        let k = c.command_index(command);
        lemma_command_index_exists(c, command);
        if c.extensions_unique() {
            assert forall|i: int, a: int, j: int, b: int|
                0 <= i < d.tools.len() && 0 <= a < d.tools[i].extensions.len() && 0 <= j
                    < d.tools.len() && 0 <= b < d.tools[j].extensions.len()
                    && #[trigger] d.tools[i].extensions[a]
                    == #[trigger] d.tools[j].extensions[b] implies i == j && a == b by {
                lemma_fresh_extension(c, extension, i, a, k);
                lemma_fresh_extension(c, extension, j, b, k);
                if (i == k && a == c.tools[k].extensions.len()) || (j == k && b
                    == c.tools[k].extensions.len()) {
                } else {
                    assert(d.tools[i].extensions[a] == c.tools[i].extensions[a]);
                    assert(d.tools[j].extensions[b] == c.tools[j].extensions[b]);
                }
            }
        }
        if c.entries_nonempty() {
            assert forall|i: int| 0 <= i < d.tools.len() implies (
            #[trigger] d.tools[i]).extensions.len() > 0 by {
                assert(c.tools[i].extensions.len() > 0);
            }
        }
        if c.commands_unique() {
            assert forall|i: int, j: int|
                0 <= i < d.tools.len() && 0 <= j < d.tools.len() && (#[trigger] d.tools[i]).command
                    == (#[trigger] d.tools[j]).command implies i == j by {
                assert(d.tools[i].command == c.tools[i].command);
                assert(d.tools[j].command == c.tools[j].command);
            }
        }
    } else {
        let n = c.tools.len() as int;
        if c.extensions_unique() {
            assert forall|i: int, a: int, j: int, b: int|
                0 <= i < d.tools.len() && 0 <= a < d.tools[i].extensions.len() && 0 <= j
                    < d.tools.len() && 0 <= b < d.tools[j].extensions.len()
                    && #[trigger] d.tools[i].extensions[a]
                    == #[trigger] d.tools[j].extensions[b] implies i == j && a == b by {
                if i < n {
                    assert(d.tools[i] == c.tools[i]);
                    assert(c.tools[i].handles(c.tools[i].extensions[a]));
                }
                if j < n {
                    assert(d.tools[j] == c.tools[j]);
                    assert(c.tools[j].handles(c.tools[j].extensions[b]));
                }
            }
        }
        if c.entries_nonempty() {
            assert forall|i: int| 0 <= i < d.tools.len() implies (
            #[trigger] d.tools[i]).extensions.len() > 0 by {
                if i < n {
                    assert(d.tools[i] == c.tools[i]);
                }
            }
        }
        if c.commands_unique() {
            assert forall|i: int, j: int|
                0 <= i < d.tools.len() && 0 <= j < d.tools.len() && (#[trigger] d.tools[i]).command
                    == (#[trigger] d.tools[j]).command implies i == j by {
                if i < n {
                    assert(d.tools[i] == c.tools[i]);
                }
                if j < n {
                    assert(d.tools[j] == c.tools[j]);
                }
            }
        }
    }
}

/// Removing the entry of a command keeps a consistent registry consistent.
pub proof fn lemma_remove_command_keeps_well_formed(c: ConfigView, command: Seq<char>)
    ensures
        c.extensions_unique() ==> c.without_command(command).extensions_unique(),
        c.entries_nonempty() ==> c.without_command(command).entries_nonempty(),
        c.commands_unique() ==> c.without_command(command).commands_unique(),
        c.well_formed() ==> c.without_command(command).well_formed(),
{
    if c.has_command(command) {
        lemma_command_index_exists(c, command);
        lemma_remove_entry_keeps_well_formed(c.tools, c.command_index(command), c.version_bits);
    }
}

/// A registry that loses one entry keeps each condition of a consistent
/// registry that it had.
pub proof fn lemma_remove_entry_keeps_well_formed(tools: Seq<ToolView>, k: int, version_bits: u64)
    requires
        0 <= k < tools.len(),
    ensures
        ({
            let c = ConfigView { version_bits, tools };
            let d = ConfigView { version_bits, tools: tools.remove(k) };
            &&& c.extensions_unique() ==> d.extensions_unique()
            &&& c.entries_nonempty() ==> d.entries_nonempty()
            &&& c.commands_unique() ==> d.commands_unique()
        }),
{
    let c = ConfigView { version_bits, tools };
    let d = ConfigView { version_bits, tools: tools.remove(k) };
    let up = |i: int| if i < k { i } else { i + 1 };
    assert forall|i: int| 0 <= i < d.tools.len() implies #[trigger] d.tools[i] == c.tools[up(
        i,
    )] by {}
    if c.extensions_unique() {
        assert forall|i: int, a: int, j: int, b: int|
            0 <= i < d.tools.len() && 0 <= a < d.tools[i].extensions.len() && 0 <= j
                < d.tools.len() && 0 <= b < d.tools[j].extensions.len()
                && #[trigger] d.tools[i].extensions[a]
                == #[trigger] d.tools[j].extensions[b] implies i == j && a == b by {
            assert(c.tools[up(i)].extensions[a] == c.tools[up(j)].extensions[b]);
        }
    }
    if c.entries_nonempty() {
        assert forall|i: int| 0 <= i < d.tools.len() implies (
        #[trigger] d.tools[i]).extensions.len() > 0 by {
            assert(c.tools[up(i)].extensions.len() > 0);
        }
    }
    if c.commands_unique() {
        assert forall|i: int, j: int|
            0 <= i < d.tools.len() && 0 <= j < d.tools.len() && (#[trigger] d.tools[i]).command
                == (#[trigger] d.tools[j]).command implies i == j by {
            assert(c.tools[up(i)].command == c.tools[up(j)].command);
        }
    }
}

/// Removing an extension keeps a consistent registry consistent.
pub proof fn lemma_remove_extension_keeps_well_formed(c: ConfigView, extension: Seq<char>)
    ensures
        c.extensions_unique() ==> c.without_extension(extension).extensions_unique(),
        c.entries_nonempty() ==> c.without_extension(extension).entries_nonempty(),
        c.commands_unique() ==> c.without_extension(extension).commands_unique(),
        c.well_formed() ==> c.without_extension(extension).well_formed(),
{
    if c.handled(extension) {
        lemma_handlers_exist(c, extension);
        let k = c.last_handler(extension);
        let old_exts = c.tools[k].extensions;
        let rest = c.tools[k].without_extension(extension);
        let d = c.without_extension(extension);
        old_exts.index_of_first_ensures(extension);
        let p = old_exts.index_of_first(extension).unwrap();
        assert(rest.extensions == old_exts.remove(p));
        if rest.extensions.len() == 0 {
            lemma_remove_entry_keeps_well_formed(c.tools, k, c.version_bits);
        } else {
            let up = |a: int| if a < p { a } else { a + 1 };
            assert forall|a: int|
                0 <= a < rest.extensions.len() implies #[trigger] rest.extensions[a] == old_exts[up(
                a,
            )] by {}
            if c.extensions_unique() {
                assert forall|i: int, a: int, j: int, b: int|
                    0 <= i < d.tools.len() && 0 <= a < d.tools[i].extensions.len() && 0 <= j
                        < d.tools.len() && 0 <= b < d.tools[j].extensions.len()
                        && #[trigger] d.tools[i].extensions[a]
                        == #[trigger] d.tools[j].extensions[b] implies i == j && a == b by {
                    let a0 = if i == k { up(a) } else { a };
                    let b0 = if j == k { up(b) } else { b };
                    assert(d.tools[i].extensions[a] == c.tools[i].extensions[a0]);
                    assert(d.tools[j].extensions[b] == c.tools[j].extensions[b0]);
                }
            }
            if c.entries_nonempty() {
                assert forall|i: int| 0 <= i < d.tools.len() implies (
                #[trigger] d.tools[i]).extensions.len() > 0 by {
                    assert(c.tools[i].extensions.len() > 0);
                }
            }
            if c.commands_unique() {
                assert forall|i: int, j: int|
                    0 <= i < d.tools.len() && 0 <= j < d.tools.len() && (
                    #[trigger] d.tools[i]).command == (#[trigger] d.tools[j]).command implies i
                        == j by {
                    assert(d.tools[i].command == c.tools[i].command);
                    assert(d.tools[j].command == c.tools[j].command);
                }
            }
        }
    }
}

/// In a registry where no entry is registered for `extension`, an extension
/// of entry `k` with `extension` added is either the added one, at the end,
/// or one that the registry had, which differs from `extension`.
proof fn lemma_fresh_extension(c: ConfigView, extension: Seq<char>, i: int, a: int, k: int)
    requires
        !c.handled(extension),
        0 <= k < c.tools.len(),
        0 <= i < c.tools.len(),
        0 <= a < c.tools.update(k, c.tools[k].with_extension(extension))[i].extensions.len(),
    ensures
        i == k && a == c.tools[k].extensions.len() ==> c.tools.update(
            k,
            c.tools[k].with_extension(extension),
        )[i].extensions[a] == extension,
        !(i == k && a == c.tools[k].extensions.len()) ==> a < c.tools[i].extensions.len()
            && c.tools.update(k, c.tools[k].with_extension(extension))[i].extensions[a]
            == c.tools[i].extensions[a] && c.tools[i].extensions[a] != extension,
{
    if !(i == k && a == c.tools[k].extensions.len()) {
        assert(c.tools[i].handles(c.tools[i].extensions[a]));
    }
}

} // verus!
