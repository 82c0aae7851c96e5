//! The control software of an experiment: named files, one of which is the
//! ARGoS configuration that references the others.
use vstd::prelude::*;
use std::str::Utf8Error;
use roxmltree::Error as XmlParseError;
use vstd::utf8::{decode_utf8, valid_utf8};
use crate::text::{contains_seq, contains_str, utf8_to_string};
use crate::xml::{lua_script_references, nodes_view, parse_xml, referenced_scripts, strings_view, xml_document};

verus! {

/// What is done with the software.
#[derive(Debug, PartialEq, Eq, Clone, Copy)]
pub enum Action {
    Upload,
    Clear,
}

/// Why the software cannot be used.
#[derive(Debug)]
pub enum Error {
    MissingConfigurationFile,
    MultipleConfigurationFiles,
    MissingReferencedFile(String),
    DecodeError(Utf8Error),
    ParseError(XmlParseError),
}

/// Files (name and contents) that make up the control software.
#[derive(Debug)]
pub struct Software(pub Vec<(String, Vec<u8>)>);

/// The view of the files.
pub open spec fn files_view(files: Seq<(String, Vec<u8>)>) -> Seq<(Seq<char>, Seq<u8>)> {
    files.map_values(|f: (String, Vec<u8>)| (f.0@, f.1@))
}

impl View for Software {
    type V = Seq<(Seq<char>, Seq<u8>)>;

    open spec fn view(&self) -> Self::V {
        files_view(self.0@)
    }
}

/// The index of the first file named `name`, if any.
pub open spec fn find_file(files: Seq<(Seq<char>, Seq<u8>)>, name: Seq<char>) -> Option<int> {
    if exists|i: int| 0 <= i < files.len() && files[i].0 == name {
        Some(choose|i: int| 0 <= i < files.len() && files[i].0 == name
            && forall|j: int| 0 <= j < i ==> files[j].0 != name)
    } else {
        None
    }
}

/// The files after adding `name` with `contents`: the first file of that
/// name gets the new contents, or the file is appended.
pub open spec fn added(files: Seq<(Seq<char>, Seq<u8>)>, name: Seq<char>, contents: Seq<u8>) -> Seq<(Seq<char>, Seq<u8>)> {
    match find_file(files, name) {
        Some(i) => files.update(i, (files[i].0, contents)),
        None => files.push((name, contents)),
    }
}

/// The indices of the files whose name contains ".argos", in order.
pub open spec fn config_indices(files: Seq<(Seq<char>, Seq<u8>)>) -> Seq<int>
    decreases files.len(),
{
    if files.len() == 0 {
        Seq::empty()
    } else {
        config_indices(files.drop_last()) + if contains_seq(files.last().0, ".argos"@) {
            seq![files.len() - 1]
        } else {
            Seq::empty()
        }
    }
}

/// The first script of `scripts` that names no file, if any.
pub open spec fn first_missing(scripts: Seq<Seq<char>>, files: Seq<(Seq<char>, Seq<u8>)>) -> Option<Seq<char>>
    decreases scripts.len(),
{
    if scripts.len() == 0 {
        None
    } else if find_file(files, scripts[0]) is Some {
        first_missing(scripts.drop_first(), files)
    } else {
        Some(scripts[0])
    }
}

/// Whether the software can be used: it has exactly one ARGoS
/// configuration file, which is UTF-8 XML whose controllers reference only
/// files of the software.
pub open spec fn software_valid(files: Seq<(Seq<char>, Seq<u8>)>) -> bool {
    &&& config_indices(files).len() == 1
    &&& valid_utf8(files[config_indices(files)[0]].1)
    &&& match xml_document(decode_utf8(files[config_indices(files)[0]].1)) {
        Some(nodes) => first_missing(referenced_scripts(nodes), files) is None,
        None => false,
    }
}

proof fn lemma_config_indices_bounded(files: Seq<(Seq<char>, Seq<u8>)>)
    ensures
        forall|k: int| 0 <= k < config_indices(files).len() ==> 0 <= #[trigger] config_indices(files)[k] < files.len()
            && contains_seq(files[config_indices(files)[k]].0, ".argos"@),
    decreases files.len(),
{
    if files.len() > 0 {
        let pre = files.drop_last();
        lemma_config_indices_bounded(pre);
        assert forall|k: int| 0 <= k < config_indices(pre).len() implies files[config_indices(pre)[k]] == pre[config_indices(pre)[k]] by {}
    }
}

/// What checking the configuration of `files` answers: success exactly for
/// valid software, otherwise the first problem found, in the order: the
/// configuration file is missing or not unique, it is not UTF-8, it is not
/// XML, a script that it names is missing.
pub open spec fn config_checked(files: Seq<(Seq<char>, Seq<u8>)>, res: Result<(), Error>) -> bool {
    &&& (res is Ok <==> software_valid(files))
    &&& (config_indices(files).len() == 0 ==> res matches Err(Error::MissingConfigurationFile))
    &&& (config_indices(files).len() >= 2 ==> res matches Err(Error::MultipleConfigurationFiles))
    &&& (config_indices(files).len() == 1 ==> {
        let bytes = files[config_indices(files)[0]].1;
        if !valid_utf8(bytes) {
            res matches Err(Error::DecodeError(_))
        } else {
            match xml_document(decode_utf8(bytes)) {
                None => res matches Err(Error::ParseError(_)),
                Some(nodes) => match first_missing(referenced_scripts(nodes), files) {
                    Some(script) => res matches Err(Error::MissingReferencedFile(name)) && name@ == script,
                    None => res is Ok,
                },
            }
        }
    })
}

impl Software {
    /// Software without files.
    pub fn new() -> (res: Software)
        ensures
            res@ == Seq::<(Seq<char>, Seq<u8>)>::empty(),
    {
        let res = Software(Vec::new());
        assert(res@ =~= Seq::<(Seq<char>, Seq<u8>)>::empty());
        res
    }

    /// Adds a file: replaces the contents of the first file with the same
    /// name, or appends the file.
    pub fn add(&mut self, new_filename: String, new_contents: Vec<u8>)
        ensures
            final(self)@ == added(old(self)@, new_filename@, new_contents@),
    {
        let ghost files = self@;
        let mut i: usize = 0;
        while i < self.0.len()
            invariant
                i <= self.0@.len(),
                files == self@,
                files == old(self)@,
                forall|j: int| 0 <= j < i ==> files[j].0 != new_filename@,
            decreases self.0.len() - i,
        {
            assert(files[i as int].0 == self.0@[i as int].0@);
            if self.0[i].0 == new_filename {
                let name = self.0[i].0.clone();
                let ghost chosen = find_file(files, new_filename@);
                proof {
                    let c = choose|c: int| 0 <= c < files.len() && files[c].0 == new_filename@
                        && forall|j: int| 0 <= j < c ==> files[j].0 != new_filename@;
                    assert(c == i as int);
                }
                assert(find_file(files, new_filename@) == Some(i as int));
                let ghost cv = new_contents@;
                self.0.set(i, (name, new_contents));
                assert(self@ =~= files.update(i as int, (files[i as int].0, cv)));
                assert(files == old(self)@);
                assert(cv == new_contents@);
                assert(self@ == added(old(self)@, new_filename@, new_contents@));
                return;
            }
            i = i + 1;
        }
        assert(find_file(files, new_filename@) is None);
        let ghost nv = (new_filename@, new_contents@);
        self.0.push((new_filename, new_contents));
        assert(self@ =~= files.push(nv));
    }

    /// Removes every file.
    pub fn clear(&mut self)
        ensures
            final(self)@ == Seq::<(Seq<char>, Seq<u8>)>::empty(),
    {
        self.0.clear();
        assert(self@ =~= Seq::<(Seq<char>, Seq<u8>)>::empty());
    }

    /// The ARGoS configuration file: the one file whose name contains
    /// ".argos".
    pub fn argos_config(&self) -> (res: Result<&(String, Vec<u8>), Error>)
        ensures
            config_indices(self@).len() == 0 <==> res matches Err(Error::MissingConfigurationFile),
            config_indices(self@).len() >= 2 <==> res matches Err(Error::MultipleConfigurationFiles),
            config_indices(self@).len() == 1 <==> res is Ok,
            res matches Ok(entry) ==> *entry == self.0@[config_indices(self@)[0]],
    {
        let ghost files = self@;
        let mut found: Vec<usize> = Vec::new();
        let mut i: usize = 0;
        while i < self.0.len()
            invariant
                i <= self.0@.len(),
                files == self@,
                found@.map_values(|x: usize| x as int) == config_indices(files.take(i as int)),
            decreases self.0.len() - i,
        {
            let ghost pre = files.take(i as int);
            assert(files.take(i + 1).drop_last() =~= pre);
            assert(files[i as int].0 == self.0@[i as int].0@);
            let ghost before = found@;
            if contains_str(self.0[i].0.as_str(), ".argos") {
                found.push(i);
                assert(found@.map_values(|x: usize| x as int) =~= before.map_values(|x: usize| x as int).push(i as int));
            }
            i = i + 1;
        }
        assert(files.take(i as int) =~= files);
        assert(found@.map_values(|x: usize| x as int).len() == found@.len());
        if found.len() == 0 {
            Err(Error::MissingConfigurationFile)
        } else if found.len() == 1 {
            proof { lemma_config_indices_bounded(files); }
            assert(found@.map_values(|x: usize| x as int)[0] == found@[0] as int);
            Ok(&self.0[found[0]])
        } else {
            Err(Error::MultipleConfigurationFiles)
        }
    }

    /// Checks that the software has exactly one ARGoS configuration file,
    /// that it is UTF-8 XML, and that every Lua script that its controllers
    /// reference is one of the files.
    pub fn check_config(&self) -> (res: Result<(), Error>)
        ensures
            config_checked(self@, res),
    {
        let config = self.argos_config()?;
        proof { lemma_config_indices_bounded(self@); }
        assert(config.1@ == self@[config_indices(self@)[0]].1);
        let text = match utf8_to_string(config.1.as_slice()) {
            Ok(text) => text,
            Err(error) => return Err(Error::DecodeError(error)),
        };
        let nodes = match parse_xml(text.as_str()) {
            Ok(nodes) => nodes,
            Err(error) => return Err(Error::ParseError(error)),
        };
        let scripts = lua_script_references(&nodes);
        let ghost sv = strings_view(scripts@);
        let mut k: usize = 0;
        assert(sv.skip(0) =~= sv);
        while k < scripts.len()
            invariant
                k <= scripts@.len(),
                config_indices(self@).len() == 1,
                valid_utf8(self@[config_indices(self@)[0]].1),
                xml_document(decode_utf8(self@[config_indices(self@)[0]].1)) == Some(nodes_view(nodes@)),
                sv == referenced_scripts(nodes_view(nodes@)),
                sv == strings_view(scripts@),
                first_missing(sv, self@) == first_missing(sv.skip(k as int), self@),
            decreases scripts.len() - k,
        {
            assert(sv.skip(k as int)[0] == scripts@[k as int]@);
            if !self.has_file(&scripts[k]) {
                return Err(Error::MissingReferencedFile(scripts[k].clone()));
            }
            assert(sv.skip(k as int).drop_first() =~= sv.skip(k + 1));
            k = k + 1;
        }
        Ok(())
    }

    /// Whether a file is named `name`.
    pub fn has_file(&self, name: &String) -> (res: bool)
        ensures
            res == find_file(self@, name@) is Some,
    {
        let mut i: usize = 0;
        while i < self.0.len()
            invariant
                i <= self.0@.len(),
                forall|j: int| 0 <= j < i ==> self@[j].0 != name@,
            decreases self.0.len() - i,
        {
            assert(self@[i as int].0 == self.0@[i as int].0@);
            if self.0[i].0 == *name {
                return true;
            }
            i = i + 1;
        }
        false
    }
}

/// The first position holding a name holds it, and no earlier one does.
pub proof fn lemma_find_file(files: Seq<(Seq<char>, Seq<u8>)>, name: Seq<char>)
    ensures
        find_file(files, name) matches Some(i) ==> 0 <= i < files.len() && files[i].0 == name
            && forall|j: int| 0 <= j < i ==> files[j].0 != name,
        find_file(files, name) is None ==> forall|j: int| 0 <= j < files.len() ==> files[j].0 != name,
{
    if exists|i: int| 0 <= i < files.len() && files[i].0 == name {
        let w = choose|i: int| 0 <= i < files.len() && files[i].0 == name;
        lemma_least_file(files, name, w);
    }
}

/// Where a name occurs, there is a first file of that name.
proof fn lemma_least_file(files: Seq<(Seq<char>, Seq<u8>)>, name: Seq<char>, w: int)
    requires
        0 <= w < files.len(),
        files[w].0 == name,
    ensures
        exists|i: int| 0 <= i < files.len() && files[i].0 == name && forall|j: int| 0 <= j < i ==> files[j].0 != name,
    decreases w,
{
    if exists|j: int| 0 <= j < w && files[j].0 == name {
        let j = choose|j: int| 0 <= j < w && files[j].0 == name;
        lemma_least_file(files, name, j);
    }
}

/// After a file is added, looking the name up finds the new contents; a
/// name that was already there keeps its place and the number of files,
/// a new one is appended; every file of another name is unchanged.
pub proof fn lemma_add_then_find(files: Seq<(Seq<char>, Seq<u8>)>, name: Seq<char>, contents: Seq<u8>)
    ensures
        find_file(added(files, name, contents), name) matches Some(i) && added(files, name, contents)[i] == (name, contents),
        added(files, name, contents).len() == files.len() + if find_file(files, name) is Some { 0int } else { 1int },
        forall|j: int| 0 <= j < files.len() && files[j].0 != name ==> #[trigger] added(files, name, contents)[j] == files[j],
{
    lemma_find_file(files, name);
    let a = added(files, name, contents);
    lemma_find_file(a, name);
    match find_file(files, name) {
        Some(i) => {
            assert(a[i].0 == name);
            assert(forall|j: int| 0 <= j < i ==> a[j] == files[j]);
        },
        None => {
            let l = files.len() as int;
            assert(a[l].0 == name);
            assert(forall|j: int| 0 <= j < l ==> a[j] == files[j]);
        },
    }
}

/// Adding a file that is already there with the same contents changes
/// nothing.
proof fn lemma_add_present(a: Seq<(Seq<char>, Seq<u8>)>, name: Seq<char>, contents: Seq<u8>, i: int)
    requires
        find_file(a, name) == Some(i),
        0 <= i < a.len(),
        a[i] == (name, contents),
    ensures
        added(a, name, contents) == a,
{
    assert(a.update(i, (a[i].0, contents)) =~= a);
}

/// Adding the same file twice is the same as adding it once.
pub proof fn lemma_add_idempotent(files: Seq<(Seq<char>, Seq<u8>)>, name: Seq<char>, contents: Seq<u8>)
    ensures
        added(added(files, name, contents), name, contents) == added(files, name, contents),
{
    let a = added(files, name, contents);
    lemma_add_then_find(files, name, contents);
    lemma_find_file(a, name);
    let i = find_file(a, name)->0;
    lemma_add_present(a, name, contents, i);
}

/// Cleared software has no configuration file, so it cannot be used.
pub proof fn lemma_cleared_invalid()
    ensures
        !software_valid(Seq::<(Seq<char>, Seq<u8>)>::empty()),
        config_indices(Seq::<(Seq<char>, Seq<u8>)>::empty()).len() == 0,
{
}

} // verus!
