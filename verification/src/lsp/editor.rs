//! Files that R asks to edit.
use vstd::prelude::*;

use crate::text;
use crate::urls::{file_url, url_of_file};

verus! {

/// A document that the frontend is asked to show.
#[derive(Debug, PartialEq, Eq)]
pub struct ShowDocument {
    pub uri: String,
    pub external: bool,
    pub take_focus: bool,
}

/// What is done about files that R asks to edit.
#[derive(Debug, PartialEq, Eq)]
pub struct Edit {
    pub shown: Vec<ShowDocument>,
    /// The files that cannot be shown, which is logged.
    pub failed: Vec<String>,
}

/// The texts of the URIs that are shown.
pub open spec fn shown_uris(shown: Seq<ShowDocument>) -> Seq<Seq<char>> {
    shown.map_values(|d: ShowDocument| d.uri@)
}

/// The URLs of files. Missing names and files without a URL are left out.
pub open spec fn uris_of(files: Seq<Option<String>>) -> Seq<Seq<char>>
    decreases files.len(),
{
    if files.len() == 0 {
        Seq::empty()
    } else {
        let rest = uris_of(files.drop_last());
        match files.last() {
            Some(file) => match file_url(file@) {
                Some(uri) => rest.push(uri),
                None => rest,
            },
            None => rest,
        }
    }
}

/// The files that have no URL.
pub open spec fn failed_files(files: Seq<Option<String>>) -> Seq<Seq<char>>
    decreases files.len(),
{
    if files.len() == 0 {
        Seq::empty()
    } else {
        let rest = failed_files(files.drop_last());
        match files.last() {
            Some(file) => match file_url(file@) {
                Some(_) => rest,
                None => rest.push(file@),
            },
            None => rest,
        }
    }
}

impl Edit {
    /// Nothing is done.
    pub fn nothing() -> (r: Self)
        ensures
            r.shown@.len() == 0,
            r.failed@.len() == 0,
    {
        Edit { shown: Vec::new(), failed: Vec::new() }
    }

    /// One more file, with its URL if it has one.
    pub fn file(&mut self, file: &str, uri: Option<String>)
        ensures
            match uri {
                Some(u) => {
                    &&& final(self).shown@ == old(self).shown@.push(
                        (ShowDocument { uri: u, external: false, take_focus: true }),
                    )
                    &&& final(self).failed == old(self).failed
                },
                None => {
                    &&& final(self).shown == old(self).shown
                    &&& text::texts(final(self).failed@) == text::texts(old(self).failed@).push(
                        file@,
                    )
                },
            },
    {
        match uri {
            Some(uri) => {
                self.shown.push(ShowDocument { uri, external: false, take_focus: true });
            },
            None => {
                self.failed.push(file.to_owned());
                assert(text::texts(self.failed@) =~= text::texts(old(self).failed@).push(file@));
            },
        }
    }
}

/// What is done about files that R asks to edit: each is shown in the frontend and
/// takes the focus. Nothing is done without a language server.
pub fn ps_editor(has_backend: bool, files: &Vec<Option<String>>) -> (r: Edit)
    ensures
        has_backend ==> shown_uris(r.shown@) == uris_of(files@),
        has_backend ==> text::texts(r.failed@) == failed_files(files@),
        !has_backend ==> r.shown@.len() == 0 && r.failed@.len() == 0,
        forall|i: int|
            0 <= i < r.shown@.len() ==> !(#[trigger] r.shown@[i]).external
                && r.shown@[i].take_focus,
{
    let mut r: Edit = Edit::nothing();
    if !has_backend {
        return r;
    }
    let n: usize = files.len();
    let mut i: usize = 0;
    assert(files@.take(0) =~= Seq::<Option<String>>::empty());
    assert(shown_uris(r.shown@) =~= Seq::<Seq<char>>::empty());
    assert(text::texts(r.failed@) =~= Seq::<Seq<char>>::empty());
    while i < n
        invariant
            n == files@.len(),
            i <= n,
            shown_uris(r.shown@) == uris_of(files@.take(i as int)),
            text::texts(r.failed@) == failed_files(files@.take(i as int)),
            forall|k: int|
                0 <= k < r.shown@.len() ==> !(#[trigger] r.shown@[k]).external
                    && r.shown@[k].take_focus,
        decreases n - i,
    {
        assert(files@.take(i + 1).drop_last() =~= files@.take(i as int));
        if let Some(file) = &files[i] {
            let ghost before = r.shown@;
            let uri: Option<String> = url_of_file(file.as_str());
            r.file(file.as_str(), uri);
            proof {
                if r.shown@.len() > before.len() {
                    assert(shown_uris(r.shown@) =~= shown_uris(before).push(r.shown@.last().uri@));
                }
            }
        }
        i = i + 1;
    }
    assert(files@.take(n as int) =~= files@);
    r
}

/// Files are shown in the order in which they come, under their URLs, and those without a
/// URL are told. Missing names are passed over.
pub proof fn law_files_are_shown(files: Seq<Option<String>>, file: Option<String>)
    ensures
        uris_of(Seq::empty()).len() == 0,
        failed_files(Seq::empty()).len() == 0,
        file is None ==> uris_of(files.push(file)) == uris_of(files) && failed_files(
            files.push(file),
        ) == failed_files(files),
        file is Some && file_url(file->0@) is Some ==> uris_of(files.push(file)) == uris_of(
            files,
        ).push(file_url(file->0@)->0) && failed_files(files.push(file)) == failed_files(files),
        file is Some && file_url(file->0@) is None ==> uris_of(files.push(file)) == uris_of(files)
            && failed_files(files.push(file)) == failed_files(files).push(file->0@),
{
    assert(files.push(file).drop_last() =~= files);
}

/// A document is known by its own URL.
pub proof fn law_shown_documents(shown: Seq<ShowDocument>, i: int)
    requires
        0 <= i < shown.len(),
    ensures
        shown_uris(shown).len() == shown.len(),
        shown_uris(shown)[i] == shown[i].uri@,
{
}

} // verus!
