use vstd::prelude::*;
use vstd::string::StringExecFns;
use crate::text::{split_by, split_on, split_from, find_from, occurs_at, lemma_find_from_bounds, views, has_prefix, has_suffix, string_of, chars_of, push_char};
use crate::toolbar::{parse_index, index_of_text, lemma_index_text_roundtrip};
use crate::command::{index_string, digits};

verus! {

/// A file of queries in the sidebar: the name listed, where it lives on disk
/// (none for a file made with "New"), and whether it was saved since its last edit.
#[derive(Debug)]
pub struct SqlFile {
    pub name: String,
    pub path: Option<String>,
    pub saved: bool,
}

/// The files of queries, in sidebar order.
pub struct FileList {
    pub files: Vec<SqlFile>,
}

/// Whether a file name counts as untitled: it starts with `Untitled` and has a
/// second space-separated word.
pub open spec fn is_untitled(name: Seq<char>) -> bool {
    &&& "Untitled"@.len() <= name.len()
    &&& name.take("Untitled"@.len() as int) == "Untitled"@
    &&& split_on(name, " "@).len() >= 2
}

/// The last untitled file of `files[..n]`.
pub open spec fn last_untitled(files: Seq<SqlFile>, n: int) -> Option<int>
    decreases n,
{
    if n <= 0 {
        None
    } else if is_untitled(files[n - 1].name@) {
        Some(n - 1)
    } else {
        last_untitled(files, n - 1)
    }
}

proof fn lemma_last_untitled(files: Seq<SqlFile>, n: int)
    ensures
        last_untitled(files, n) matches Some(j) ==> 0 <= j < n && is_untitled(files[j].name@),
    decreases n,
{
    if n > 0 && !is_untitled(files[n - 1].name@) {
        lemma_last_untitled(files, n - 1);
    }
}

/// The number of the last untitled file (the word after `Untitled`), or zero
/// when there is none or that word is not a number.
pub open spec fn untitled_number(files: Seq<SqlFile>) -> nat {
    match last_untitled(files, files.len() as int) {
        Some(k) => match index_of_text(split_on(files[k].name@, " "@)[1]) {
            Some(v) => v,
            None => 0,
        },
        None => 0,
    }
}

/// The name of the editor page that shows the `i`-th file.
pub open spec fn stack_child(i: nat) -> Seq<char> {
    "queries_"@ + digits(i)
}

/// The name of the editor page that shows the `i`-th file.
pub fn query_stack_name(i: usize) -> (r: String)
    ensures
        r@ == stack_child(i as nat),
{
    let mut s = "queries_".to_owned();
    let d = index_string(i);
    s.append(d.as_str());
    s
}

/// The editor page shown when the query view is toggled on: the selected file's
/// page, or the empty page when no file is selected.
pub open spec fn query_page_of(selected: Option<usize>) -> Seq<char> {
    match selected {
        Some(i) => stack_child(i as nat),
        None => "no_queries"@,
    }
}

/// The editor page to show when the query view is toggled on (see `query_page_of`).
pub fn query_page_name(selected: Option<usize>) -> (r: String)
    ensures
        r@ == query_page_of(selected),
{
    match selected {
        Some(i) => query_stack_name(i),
        None => "no_queries".to_owned(),
    }
}

/// A sidebar label marked saved: a trailing `*` is dropped.
pub open spec fn saved_label(txt: Seq<char>) -> Seq<char> {
    if txt.len() > 0 && txt.last() == '*' { txt.drop_last() } else { txt }
}

/// A sidebar label marked unsaved: a `*` is appended unless it ends with one.
pub open spec fn unsaved_label(txt: Seq<char>) -> Seq<char> {
    if txt.len() > 0 && txt.last() == '*' { txt } else { txt.push('*') }
}

/// The label of the selected file once saved.
pub fn mark_saved(txt: &str) -> (r: String)
    ensures
        r@ == saved_label(txt@),
{
    proof { reveal_strlit("*"); }
    assert("*"@ =~= seq!['*']);
    let cs = chars_of(txt);
    if has_suffix(txt, "*") {
        assert(txt@.skip(txt@.len() - 1)[0] == txt@.last());
        assert(cs@.subrange(0, cs@.len() - 1) =~= txt@.drop_last());
        string_of(&cs, 0, cs.len() - 1)
    } else {
        proof {
            if txt@.len() > 0 && txt@.last() == '*' {
                assert(txt@.skip(txt@.len() - 1) =~= "*"@);
            }
        }
        txt.to_owned()
    }
}

/// The label of the selected file once edited.
pub fn mark_unsaved(txt: &str) -> (r: String)
    ensures
        r@ == unsaved_label(txt@),
{
    proof { reveal_strlit("*"); }
    assert("*"@ =~= seq!['*']);
    if !has_suffix(txt, "*") {
        proof {
            if txt@.len() > 0 && txt@.last() == '*' {
                assert(txt@.skip(txt@.len() - 1) =~= "*"@);
            }
        }
        let mut s = txt.to_owned();
        push_char(&mut s, '*');
        s
    } else {
        assert(txt@.skip(txt@.len() - 1)[0] == txt@.last());
        txt.to_owned()
    }
}

fn is_untitled_exec(name: &str) -> (r: bool)
    ensures
        r == is_untitled(name@),
{
    proof {
        reveal_strlit("Untitled");
        reveal_strlit(" ");
    }
    if !has_prefix(name, "Untitled") {
        return false;
    }
    let parts = split_by(name, " ");
    assert(views(parts@).len() == parts@.len());
    parts.len() >= 2
}

impl FileList {
    /// The list at start: one untitled, saved file.
    pub fn build() -> (r: FileList)
        ensures
            r.files@.len() == 1,
            r.files@[0].name@ == "Untitled 1"@,
            r.files@[0].path is None,
            r.files@[0].saved,
    {
        let mut files: Vec<SqlFile> = Vec::new();
        files.push(SqlFile { name: "Untitled 1".to_owned(), path: None, saved: true });
        FileList { files }
    }

    /// The number of the last untitled file, or zero.
    pub fn get_n_untitled(&self) -> (r: usize)
        ensures
            r as nat == untitled_number(self.files@),
    {
        let mut last: Option<usize> = None;
        let mut k: usize = 0;
        while k < self.files.len()
            invariant
                k <= self.files@.len(),
                match last {
                    Some(j) => last_untitled(self.files@, k as int) == Some(j as int),
                    None => last_untitled(self.files@, k as int) is None,
                },
            decreases self.files@.len() - k,
        {
            if is_untitled_exec(self.files[k].name.as_str()) {
                last = Some(k);
            }
            k = k + 1;
        }
        match last {
            Some(j) => {
                proof {
                    reveal_strlit(" ");
                    lemma_last_untitled(self.files@, self.files@.len() as int);
                }
                assert(" "@.len() == 1);
                let parts = split_by(self.files[j].name.as_str(), " ");
                assert(views(parts@)[1] == parts@[1]@);
                match parse_index(parts[1].as_str()) {
                    Some(v) => v,
                    None => 0,
                }
            },
            None => 0,
        }
    }

    /// Adds a new untitled file, numbered after the last untitled one, and
    /// returns its name.
    pub fn add_fresh_source(&mut self) -> (title: String)
        requires
            untitled_number(old(self).files@) < usize::MAX,
        ensures
            title@ == "Untitled "@ + digits(untitled_number(old(self).files@) + 1),
            final(self).files@.len() == old(self).files@.len() + 1,
            final(self).files@.drop_last() == old(self).files@,
            final(self).files@.last().name@ == title@,
            final(self).files@.last().path is None,
            final(self).files@.last().saved,
    {
        let n = self.get_n_untitled();
        let mut title = "Untitled ".to_owned();
        let d = index_string(n + 1);
        title.append(d.as_str());
        let name = title.clone();
        self.files.push(SqlFile { name, path: None, saved: true });
        assert(self.files@.drop_last() =~= old(self).files@);
        title
    }

    /// Adds a file read from disk, listed under `list_name`.
    pub fn add_disk_file(&mut self, path: String, list_name: &str)
        ensures
            final(self).files@.len() == old(self).files@.len() + 1,
            final(self).files@.drop_last() == old(self).files@,
            final(self).files@.last().name@ == list_name@,
            final(self).files@.last().path == Some(path),
            final(self).files@.last().saved,
    {
        self.files.push(SqlFile { name: list_name.to_owned(), path: Some(path), saved: true });
        assert(self.files@.drop_last() =~= old(self).files@);
    }

    /// The disk path of the selected file, if it has one.
    pub fn current_selected_path(&self, selected: Option<usize>) -> (r: Option<String>)
        ensures
            match selected {
                Some(i) if i < self.files@.len() => match self.files@[i as int].path {
                    Some(p) => r matches Some(q) && q@ == p@,
                    None => r is None,
                },
                _ => r is None,
            },
    {
        match selected {
            Some(i) => {
                if i < self.files.len() {
                    match &self.files[i].path {
                        Some(p) => Some(p.clone()),
                        None => None,
                    }
                } else {
                    None
                }
            },
            None => None,
        }
    }

    /// Records that the selected file now lives at `path`, listed as `name`.
    /// Returns whether the selected row's label (`label`) is to show the new name:
    /// only an untitled label is replaced.
    pub fn set_current_selected_path(&mut self, selected: Option<usize>, name: &str, path: String, label: &str)
        -> (r: bool)
        ensures
            match selected {
                Some(i) if i < old(self).files@.len() => {
                    &&& final(self).files@.len() == old(self).files@.len()
                    &&& final(self).files@[i as int].name@ == name@
                    &&& final(self).files@[i as int].path == Some(path)
                    &&& final(self).files@[i as int].saved == old(self).files@[i as int].saved
                    &&& forall|j: int| 0 <= j < old(self).files@.len() && j != i
                        ==> #[trigger] final(self).files@[j] == old(self).files@[j]
                    &&& r == ("Untitled "@.len() <= label@.len() && label@.take("Untitled "@.len() as int) == "Untitled "@)
                },
                _ => *final(self) == *old(self) && !r,
            },
    {
        match selected {
            Some(i) => {
                if i < self.files.len() {
                    let saved = self.files[i].saved;
                    self.files.set(i, SqlFile { name: name.to_owned(), path: Some(path), saved });
                    has_prefix(label, "Untitled ")
                } else {
                    false
                }
            },
            None => false,
        }
    }

    /// Drops the `ix`-th file when the sidebar lists more than one (`n_rows`);
    /// the last file is kept, to be cleared and shown as `Untitled 0`.
    pub fn remove_source(&mut self, ix: usize, n_rows: usize) -> (removed: bool)
        requires
            n_rows > 1 ==> ix < old(self).files@.len(),
        ensures
            removed == (n_rows > 1),
            removed ==> final(self).files@ == old(self).files@.remove(ix as int),
            !removed ==> *final(self) == *old(self),
    {
        if n_rows > 1 {
            self.files.remove(ix);
            true
        } else {
            false
        }
    }
}

/// Marking an unmarked label unsaved and then saved gives it back; marking it
/// unsaved twice is marking it once, and so is marking it saved twice.
pub proof fn lemma_saved_undoes_unsaved(txt: Seq<char>)
    ensures
        txt.len() == 0 || txt.last() != '*' ==> saved_label(unsaved_label(txt)) == txt,
        unsaved_label(unsaved_label(txt)) == unsaved_label(txt),
        txt.len() < 2 || txt[txt.len() - 2] != '*' ==> saved_label(saved_label(txt)) == saved_label(txt),
{
    if txt.len() == 0 || txt.last() != '*' {
        assert(txt.push('*').drop_last() =~= txt);
    }
    if txt.len() >= 2 && txt.last() == '*' {
        assert(txt.drop_last().last() == txt[txt.len() - 2]);
    }
}

/// A fresh untitled file is numbered one after the last untitled one, so that
/// successive fresh files are numbered 1, 2, 3, and so on.
pub proof fn lemma_fresh_numbering(files: Seq<SqlFile>, f: SqlFile)
    requires
        untitled_number(files) < usize::MAX,
        f.name@ == "Untitled "@ + digits((untitled_number(files) + 1) as nat),
    ensures
        untitled_number(files.push(f)) == untitled_number(files) + 1,
{
    let n = (untitled_number(files) + 1) as nat;
    let d = digits(n);
    let s = f.name@;
    reveal_strlit("Untitled ");
    reveal_strlit("Untitled");
    reveal_strlit(" ");
    lemma_index_text_roundtrip(n);
    lemma_digits_no_space(n);
    let sp = " "@;
    assert(sp =~= seq![' ']);
    assert(s.len() == 9 + d.len());
    assert(forall|k: int| 0 <= k < 8 ==> s[k] != ' ');
    assert(s[8] == ' ');
    assert(forall|k: int| 9 <= k < s.len() ==> s[k] == d[k - 9]);
    lemma_find_from_bounds(s, sp, 0);
    let j = find_from(s, sp, 0);
    if j < 8 {
        assert(occurs_at(s, sp, j));
        assert(s.subrange(j, j + 1)[0] == s[j]);
    }
    if j > 8 {
        assert(s.subrange(8, 9) =~= sp);
        assert(occurs_at(s, sp, 8));
    }
    assert(j == 8);
    lemma_find_from_bounds(s, sp, 9);
    let j2 = find_from(s, sp, 9);
    if j2 < s.len() {
        assert(occurs_at(s, sp, j2));
        assert(s.subrange(j2, j2 + 1)[0] == s[j2]);
        assert(s[j2] == d[j2 - 9]);
    }
    assert(j2 == s.len());
    assert(split_from(s, sp, 9) == seq![s.subrange(9, s.len() as int)]);
    assert(split_on(s, sp) == seq![s.subrange(0, 8)].add(split_from(s, sp, 9)));
    assert(s.subrange(9, s.len() as int) =~= d);
    assert(split_on(s, sp)[1] == d);
    assert(s.take(8) =~= "Untitled"@);
    assert(is_untitled(s));
    let all = files.push(f);
    assert(all[files.len() as int] == f);
    assert(last_untitled(all, all.len() as int) == Some(files.len() as int));
}

proof fn lemma_digits_no_space(n: nat)
    ensures
        forall|k: int| 0 <= k < digits(n).len() ==> #[trigger] digits(n)[k] != ' ',
    decreases n,
{
    if n < 10 {
        let c = (('0' as u8) + n as u8) as char;
        assert(digits(n) == seq![c]);
        assert(c as nat == 48 + n);
    } else {
        lemma_digits_no_space(n / 10);
        let c = ((('0' as u8) + (n % 10) as u8) as char);
        assert(digits(n) == digits(n / 10).push(c));
        assert(c as nat == 48 + n % 10);
        assert forall|k: int| 0 <= k < digits(n).len() implies #[trigger] digits(n)[k] != ' ' by {
            if k < digits(n).len() - 1 {
                assert(digits(n)[k] == digits(n / 10)[k]);
            }
        }
    }
}

} // verus!
