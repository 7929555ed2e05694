//! The registry of launcher commands and the operations that read and
//! change it.

use vstd::prelude::*;
use crate::error::{AppError, command_not_registered, extension_not_registered};
use crate::invariants::{
    lemma_add_keeps_well_formed, lemma_remove_command_keeps_well_formed,
    lemma_remove_extension_keeps_well_formed,
};
use crate::model::{
    ConfigView, ToolView, lemma_command_index_is, lemma_first_handler_is, lemma_last_handler_is,
};

verus! {

/// A launcher command and the extensions it is registered for.
#[derive(PartialEq, Eq, Debug)]
pub struct Tool {
    /// The command line: a program and its fixed arguments, kept as written.
    pub command: String,
    /// The extensions, without the leading dot.
    pub extensions: Vec<String>,
}

/// The registry: which command opens which extension.
#[derive(PartialEq, Eq, Debug)]
pub struct Config {
    /// The version stamp of the persisted form, as the bit pattern of the
    /// 64-bit float that the file holds. No operation reads it.
    pub version_bits: u64,
    /// The entries, in the order in which they were created.
    pub tools: Vec<Tool>,
}

impl View for Tool {
    type V = ToolView;

    open spec fn view(&self) -> ToolView {
        ToolView {
            command: self.command@,
            extensions: Seq::new(self.extensions@.len(), |a: int| self.extensions@[a]@),
        }
    }
}

impl View for Config {
    type V = ConfigView;

    open spec fn view(&self) -> ConfigView {
        ConfigView {
            version_bits: self.version_bits,
            tools: Seq::new(self.tools@.len(), |i: int| self.tools@[i]@),
        }
    }
}

impl Tool {
    /// The position of the first occurrence of `extension` among the
    /// extensions of the entry.
    pub fn position(&self, extension: &str) -> (r: Option<usize>)
        ensures
            match r {
                Some(a) => self@.extensions.index_of_first(extension@) == Some(a as int),
                None => !self@.handles(extension@),
            },
    {
        let wanted = extension.to_owned();
        let mut a: usize = 0;
        while a < self.extensions.len()
            invariant
                a <= self.extensions@.len(),
                wanted@ == extension@,
                forall|b: int| 0 <= b < a ==> self@.extensions[b] != extension@,
            decreases self.extensions@.len() - a,
        {
            if self.extensions[a] == wanted {
                proof {
                    assert(self@.extensions[a as int] == extension@);
                    self@.extensions.index_of_first_ensures(extension@);
                }
                return Some(a);
            }
            a += 1;
        }
        None
    }
}

impl Config {
    /// The position of the first entry that is registered for `extension`.
    pub fn handler_position(&self, extension: &str) -> (r: Option<usize>)
        ensures
            match r {
                Some(i) => self@.is_first_handler(extension@, i as int),
                None => !self@.handled(extension@),
            },
    {
        let mut i: usize = 0;
        while i < self.tools.len()
            invariant
                i <= self.tools@.len(),
                forall|j: int| 0 <= j < i ==> !(#[trigger] self@.tools[j]).handles(extension@),
            decreases self.tools@.len() - i,
        {
            if self.tools[i].position(extension).is_some() {
                proof {
                    self@.tools[i as int].extensions.index_of_first_ensures(extension@);
                }
                return Some(i);
            }
            i += 1;
        }
        None
    }

    /// The command registered for `extension`, if there is one: that of the
    /// first entry that has the extension.
    pub fn get_command(&self, extension: &str) -> (r: Option<String>)
        ensures
            r.deep_view() == self@.lookup(extension@),
    {
        match self.handler_position(extension) {
            Some(i) => {
                proof {
                    lemma_first_handler_is(self@, extension@, i as int);
                }
                Some(self.tools[i].command.clone())
            },
            None => None,
        }
    }

    /// The position of the first entry whose command line is `command`.
    pub fn command_position(&self, command: &str) -> (r: Option<usize>)
        ensures
            match r {
                Some(i) => self@.is_first_with_command(command@, i as int),
                None => !self@.has_command(command@),
            },
    {
        let wanted = command.to_owned();
        let mut i: usize = 0;
        while i < self.tools.len()
            invariant
                i <= self.tools@.len(),
                wanted@ == command@,
                forall|j: int| 0 <= j < i ==> (#[trigger] self@.tools[j]).command != command@,
            decreases self.tools@.len() - i,
        {
            if self.tools[i].command == wanted {
                return Some(i);
            }
            i += 1;
        }
        None
    }

    /// Registers `extension` for `command`. An extension that some entry
    /// already has stays with that entry, whatever its command; otherwise
    /// it joins the entry of `command`, or a new entry where there is none.
    /// Always succeeds.
    pub fn add(&mut self, command: &str, extension: &str) -> (r: Result<(), AppError>)
        ensures
            r is Ok,
            final(self)@ == old(self)@.with_association(command@, extension@),
            old(self)@.extensions_unique() ==> final(self)@.extensions_unique(),
            old(self)@.well_formed() ==> final(self)@.well_formed(),
    {
        proof {
            lemma_add_keeps_well_formed(self@, command@, extension@);
        }
        if self.handler_position(extension).is_some() {
            return Ok(());
        }
        match self.command_position(command) {
            Some(i) => {
                proof {
                    lemma_command_index_is(self@, command@, i as int);
                }
                self.tools[i].extensions.push(extension.to_owned());
                let ghost before = old(self)@.tools[i as int];
                assert(self@.tools[i as int].extensions =~= before.extensions.push(extension@));
                assert(self@.tools =~= old(self)@.tools.update(
                    i as int,
                    before.with_extension(extension@),
                ));
            },
            None => {
                let mut extensions: Vec<String> = Vec::new();
                extensions.push(extension.to_owned());
                let tool = Tool { command: command.to_owned(), extensions };
                assert(tool@.extensions =~= seq![extension@]);
                self.tools.push(tool);
                assert(self@.tools =~= old(self)@.tools.push(
                    ToolView { command: command@, extensions: seq![extension@] },
                ));
            },
        }
        Ok(())
    }

    /// Removes the entry of `command` with all its extensions: the first
    /// such entry, where a registry that is not consistent has several.
    /// Fails, and leaves the registry as it is, where no entry has that
    /// command.
    pub fn remove_command(&mut self, command: &str) -> (r: Result<(), AppError>)
        ensures
            final(self)@ == old(self)@.without_command(command@),
            match r {
                Ok(_) => old(self)@.has_command(command@),
                Err(e) => {
                    &&& !old(self)@.has_command(command@)
                    &&& final(self)@ == old(self)@
                    &&& e matches AppError::NotFound(words)
                    &&& words@ == command_not_registered(command@)
                },
            },
            old(self)@.well_formed() ==> final(self)@.well_formed(),
    {
        proof {
            lemma_remove_command_keeps_well_formed(self@, command@);
        }
        match self.command_position(command) {
            Some(i) => {
                proof {
                    lemma_command_index_is(self@, command@, i as int);
                }
                self.tools.remove(i);
                assert(self@.tools =~= old(self)@.tools.remove(i as int));
                Ok(())
            },
            None => Err(AppError::missing_command(command)),
        }
    }

    /// Takes `extension` from the entry that has it, and the entry from
    /// the registry if that was its only extension. Where several entries
    /// have it, which a consistent registry excludes, the last of them
    /// loses its first occurrence. Fails, and leaves the registry as it
    /// is, where no entry is registered for `extension`.
    pub fn remove_extension(&mut self, extension: &str) -> (r: Result<(), AppError>)
        ensures
            final(self)@ == old(self)@.without_extension(extension@),
            match r {
                Ok(_) => old(self)@.handled(extension@),
                Err(e) => {
                    &&& !old(self)@.handled(extension@)
                    &&& final(self)@ == old(self)@
                    &&& e matches AppError::NotFound(words)
                    &&& words@ == extension_not_registered(extension@)
                },
            },
            old(self)@.well_formed() ==> final(self)@.well_formed(),
    {
        proof {
            lemma_remove_extension_keeps_well_formed(self@, extension@);
        }
        let mut found: Option<(usize, usize)> = None;
        let mut i: usize = 0;
        while i < self.tools.len()
            invariant
                i <= self.tools@.len(),
                match found {
                    Some((k, a)) => {
                        &&& k < i
                        &&& self@.tools[k as int].extensions.index_of_first(extension@) == Some(
                            a as int,
                        )
                        &&& forall|j: int|
                            k < j < i ==> !(#[trigger] self@.tools[j]).handles(extension@)
                    },
                    None => forall|j: int|
                        0 <= j < i ==> !(#[trigger] self@.tools[j]).handles(extension@),
                },
            decreases self.tools@.len() - i,
        {
            match self.tools[i].position(extension) {
                Some(a) => {
                    found = Some((i, a));
                },
                None => {},
            }
            i += 1;
        }
        match found {
            Some((k, a)) => {
                proof {
                    self@.tools[k as int].extensions.index_of_first_ensures(extension@);
                    lemma_last_handler_is(self@, extension@, k as int);
                }
                self.tools[k].extensions.remove(a);
                let ghost before = old(self)@.tools[k as int];
                assert(self@.tools[k as int].extensions =~= before.extensions.remove(a as int));
                if self.tools[k].extensions.is_empty() {
                    self.tools.remove(k);
                    assert(self@.tools =~= old(self)@.tools.remove(k as int));
                } else {
                    assert(self@.tools =~= old(self)@.tools.update(
                        k as int,
                        before.without_extension(extension@),
                    ));
                }
                Ok(())
            },
            None => Err(AppError::missing_extension(extension)),
        }
    }
}

impl Default for Config {
    /// The registry with no entries and the version stamp zero.
    fn default() -> (r: Config)
        ensures
            r@ == ConfigView::empty(0),
            r@.well_formed(),
    {
        let r = Config { version_bits: 0, tools: Vec::new() };
        assert(r@.tools =~= Seq::empty());
        r
    }
}

} // verus!
