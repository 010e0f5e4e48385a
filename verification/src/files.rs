//! Files to be written from templates, and what that does to a file system.

use vstd::prelude::*;

use crate::text::text_eq;
use crate::text::texts;

verus! {

/// A file to be written.
#[derive(Debug, Clone)]
pub struct NewFile {
    pub path: String,
    pub content: String,
}

/// A file: its path and what it holds.
pub ghost struct FileView {
    pub path: Seq<char>,
    pub content: Seq<char>,
}

impl View for NewFile {
    type V = FileView;

    open spec fn view(&self) -> FileView {
        FileView { path: self.path@, content: self.content@ }
    }
}

/// The contents of a list of files.
pub open spec fn file_views(v: Seq<NewFile>) -> Seq<FileView> {
    Seq::new(v.len(), |i: int| v[i]@)
}

/// The paths of a list of files.
pub open spec fn file_paths(v: Seq<FileView>) -> Seq<Seq<char>> {
    Seq::new(v.len(), |i: int| v[i].path)
}

/// A file with a path and a content.
pub fn new_file(path: String, content: &str) -> (r: NewFile)
    ensures
        r@ == (FileView { path: path@, content: content@ }),
{
    NewFile { path, content: content.to_owned() }
}

/// The paths of a list of files.
pub fn paths_of(files: &Vec<NewFile>) -> (r: Vec<String>)
    ensures
        texts(r@) == file_paths(file_views(files@)),
{
    let mut out: Vec<String> = Vec::new();
    let mut i: usize = 0;
    while i < files.len()
        invariant
            i <= files.len(),
            out.len() == i,
            forall|k: int| 0 <= k < i ==> #[trigger] out@[k]@ == files@[k].path@,
        decreases files.len() - i,
    {
        out.push(files[i].path.clone());
        i = i + 1;
    }
    proof {
        assert(texts(out@) =~= file_paths(file_views(files@)));
    }
    out
}

/// An earlier file of a template has the same path as file `k`.
pub open spec fn came_before(template: Seq<FileView>, k: int) -> bool {
    exists|j: int| 0 <= j < k && (#[trigger] template[j]).path == template[k].path
}

/// File `k` of a template is written: with `force`, or where it neither exists
/// nor is written as an earlier file of the template.
pub open spec fn is_written(template: Seq<FileView>, exists: Seq<bool>, force: bool, k: int) -> bool {
    force || (!exists[k] && !came_before(template, k))
}

/// Of the first `n` files of a template those that are written: all of them
/// with `force`, else those that do not exist when their turn comes.
pub open spec fn chosen(template: Seq<FileView>, exists: Seq<bool>, force: bool, n: nat) -> Seq<
    FileView,
>
    decreases n,
{
    if n == 0 {
        seq![]
    } else if is_written(template, exists, force, n - 1) {
        chosen(template, exists, force, (n - 1) as nat).push(template[n - 1])
    } else {
        chosen(template, exists, force, (n - 1) as nat)
    }
}

/// Of the first `n` files of a template those that are kept as they are.
pub open spec fn kept(template: Seq<FileView>, exists: Seq<bool>, force: bool, n: nat) -> Seq<
    Seq<char>,
>
    decreases n,
{
    if n == 0 {
        seq![]
    } else if is_written(template, exists, force, n - 1) {
        kept(template, exists, force, (n - 1) as nat)
    } else {
        kept(template, exists, force, (n - 1) as nat).push(template[n - 1].path)
    }
}

fn named_before(template: &Vec<NewFile>, k: usize) -> (r: bool)
    requires
        k < template.len(),
    ensures
        r == came_before(file_views(template@), k as int),
{
    let ghost all = file_views(template@);
    let mut j: usize = 0;
    while j < k
        invariant
            j <= k < template.len(),
            all == file_views(template@),
            forall|m: int| 0 <= m < j ==> (#[trigger] all[m]).path != all[k as int].path,
        decreases k - j,
    {
        if text_eq(template[j].path.as_str(), template[k].path.as_str()) {
            proof {
                assert(all[j as int].path == all[k as int].path);
            }
            return true;
        }
        j = j + 1;
    }
    false
}

/// Chooses the files to be written; `exists` says of each file of the template
/// whether it exists. Returns the files to be written and the paths of those
/// that are kept as they are.
pub fn choose_files(template: &Vec<NewFile>, exists: &Vec<bool>, force: bool) -> (r: (
    Vec<NewFile>,
    Vec<String>,
))
    requires
        exists.len() == template.len(),
    ensures
        file_views(r.0@) == chosen(
            file_views(template@),
            exists@,
            force,
            template.len() as nat,
        ),
        texts(r.1@) == kept(file_views(template@), exists@, force, template.len() as nat),
{
    let mut files: Vec<NewFile> = Vec::new();
    let mut skipped: Vec<String> = Vec::new();
    let ghost all = file_views(template@);
    let mut i: usize = 0;
    proof {
        assert(file_views(files@) =~= chosen(all, exists@, force, 0));
        assert(texts(skipped@) =~= kept(all, exists@, force, 0));
    }
    while i < template.len()
        invariant
            i <= template.len(),
            exists.len() == template.len(),
            all == file_views(template@),
            file_views(files@) == chosen(all, exists@, force, i as nat),
            texts(skipped@) == kept(all, exists@, force, i as nat),
        decreases template.len() - i,
    {
        let ghost before = files@;
        let ghost passed = skipped@;
        if force || (!exists[i] && !named_before(template, i)) {
            let file = new_file(template[i].path.clone(), template[i].content.as_str());
            files.push(file);
            proof {
                assert(file_views(files@) =~= file_views(before).push(all[i as int]));
            }
        } else {
            skipped.push(template[i].path.clone());
            proof {
                assert(texts(skipped@) =~= texts(passed).push(all[i as int].path));
            }
        }
        i = i + 1;
    }
    (files, skipped)
}

// ---------------------------------------------------------------------------
// What the writing does
// ---------------------------------------------------------------------------

/// The files by their paths.
pub type FileSystem = Map<Seq<char>, Seq<char>>;

/// The file system after the files were written, one after the other.
pub open spec fn written(fs: FileSystem, files: Seq<FileView>) -> FileSystem
    decreases files.len(),
{
    if files.len() == 0 {
        fs
    } else {
        written(fs, files.drop_last()).insert(files.last().path, files.last().content)
    }
}

/// Which files of a template exist.
pub open spec fn present(fs: FileSystem, template: Seq<FileView>) -> Seq<bool> {
    Seq::new(template.len(), |i: int| fs.contains_key(template[i].path))
}

/// The file system after a template was written to it.
pub open spec fn after_writing(fs: FileSystem, template: Seq<FileView>, force: bool) -> FileSystem {
    written(fs, chosen(template, present(fs, template), force, template.len()))
}

/// No two files of a template have the same path.
pub open spec fn distinct_paths(template: Seq<FileView>) -> bool {
    forall|i: int, j: int|
        #![trigger template[i], template[j]]
        0 <= i < j < template.len() ==> template[i].path != template[j].path
}

proof fn lemma_written_domain(fs: FileSystem, files: Seq<FileView>, p: Seq<char>)
    ensures
        written(fs, files).contains_key(p) <==> fs.contains_key(p) || exists|i: int|
            0 <= i < files.len() && (#[trigger] files[i]).path == p,
    decreases files.len(),
{
    if files.len() > 0 {
        let rest = files.drop_last();
        lemma_written_domain(fs, rest, p);
        if exists|i: int| 0 <= i < files.len() && (#[trigger] files[i]).path == p {
            let i = choose|i: int| 0 <= i < files.len() && (#[trigger] files[i]).path == p;
            if i < rest.len() {
                assert(rest[i].path == p);
            }
        }
        if exists|i: int| 0 <= i < rest.len() && (#[trigger] rest[i]).path == p {
            let i = choose|i: int| 0 <= i < rest.len() && (#[trigger] rest[i]).path == p;
            assert(files[i].path == p);
        }
        assert(files[files.len() - 1] == files.last());
    }
}

proof fn lemma_written_elsewhere(fs: FileSystem, files: Seq<FileView>, p: Seq<char>)
    requires
        forall|i: int| 0 <= i < files.len() ==> (#[trigger] files[i]).path != p,
    ensures
        written(fs, files).contains_key(p) == fs.contains_key(p),
        fs.contains_key(p) ==> written(fs, files)[p] == fs[p],
    decreases files.len(),
{
    if files.len() > 0 {
        let rest = files.drop_last();
        assert forall|i: int| 0 <= i < rest.len() implies (#[trigger] rest[i]).path != p by {
            assert(rest[i] == files[i]);
        }
        lemma_written_elsewhere(fs, rest, p);
        assert(files[files.len() - 1] == files.last());
    }
}

proof fn lemma_chosen_are_absent(fs: FileSystem, template: Seq<FileView>, n: nat)
    requires
        n <= template.len(),
    ensures
        forall|i: int|
            0 <= i < chosen(template, present(fs, template), false, n).len() ==> !fs.contains_key(
                (#[trigger] chosen(template, present(fs, template), false, n)[i]).path,
            ),
    decreases n,
{
    if n > 0 {
        lemma_chosen_are_absent(fs, template, (n - 1) as nat);
        let shorter = chosen(template, present(fs, template), false, (n - 1) as nat);
        let s = chosen(template, present(fs, template), false, n);
        assert forall|i: int| 0 <= i < s.len() implies !fs.contains_key((#[trigger] s[i]).path) by {
            if i < shorter.len() {
                assert(s[i] == shorter[i]);
            } else {
                assert(s[i] == template[n - 1]);
                assert(!present(fs, template)[n - 1]);
            }
        }
    }
}

/// Without force the files that exist keep what they hold.
pub proof fn law_existing_files_are_kept(fs: FileSystem, template: Seq<FileView>, p: Seq<char>)
    requires
        fs.contains_key(p),
    ensures
        after_writing(fs, template, false).contains_key(p),
        after_writing(fs, template, false)[p] == fs[p],
{
    lemma_chosen_are_absent(fs, template, template.len());
    lemma_written_elsewhere(
        fs,
        chosen(template, present(fs, template), false, template.len()),
        p,
    );
}

proof fn lemma_chosen_has(
    template: Seq<FileView>,
    exists: Seq<bool>,
    force: bool,
    n: nat,
    i: int,
)
    requires
        0 <= i < n <= template.len(),
        is_written(template, exists, force, i),
    ensures
        chosen(template, exists, force, n).contains(template[i]),
    decreases n,
{
    let s = chosen(template, exists, force, n);
    if i == n - 1 {
        assert(s[s.len() - 1] == template[i]);
    } else {
        lemma_chosen_has(template, exists, force, (n - 1) as nat, i);
        let t = chosen(template, exists, force, (n - 1) as nat);
        let k = choose|k: int| 0 <= k < t.len() && t[k] == template[i];
        assert(s[k] == template[i]);
    }
}

/// After the writing every file of the template exists.
pub proof fn law_every_file_exists_afterwards(
    fs: FileSystem,
    template: Seq<FileView>,
    force: bool,
    i: int,
)
    requires
        0 <= i < template.len(),
    ensures
        after_writing(fs, template, force).contains_key(template[i].path),
{
    let exists = present(fs, template);
    let files = chosen(template, exists, force, template.len());
    lemma_written_domain(fs, files, template[i].path);
    if !exists[i] {
        let first = lemma_first_of_its_path(template, i);
        assert(!exists[first]);
        lemma_chosen_has(template, exists, force, template.len(), first);
        let k = choose|k: int| 0 <= k < files.len() && files[k] == template[first];
        assert(files[k].path == template[i].path);
    }
}

proof fn lemma_first_of_its_path(template: Seq<FileView>, i: int) -> (first: int)
    requires
        0 <= i < template.len(),
    ensures
        0 <= first <= i,
        template[first].path == template[i].path,
        !came_before(template, first),
    decreases i,
{
    if came_before(template, i) {
        let j = choose|j: int| 0 <= j < i && (#[trigger] template[j]).path == template[i].path;
        lemma_first_of_its_path(template, j)
    } else {
        i
    }
}

/// Without force a second writing finds nothing to write.
pub proof fn law_second_writing_writes_nothing(fs: FileSystem, template: Seq<FileView>, force: bool)
    ensures
        chosen(
            template,
            present(after_writing(fs, template, force), template),
            false,
            template.len(),
        ) == Seq::<FileView>::empty(),
        after_writing(after_writing(fs, template, force), template, false) == after_writing(
            fs,
            template,
            force,
        ),
{
    let now = after_writing(fs, template, force);
    let exists = present(now, template);
    assert forall|i: int| 0 <= i < template.len() implies #[trigger] exists[i] by {
        law_every_file_exists_afterwards(fs, template, force, i);
    }
    lemma_nothing_chosen(template, exists, template.len());
}

proof fn lemma_nothing_chosen(template: Seq<FileView>, exists: Seq<bool>, n: nat)
    requires
        n <= template.len(),
        exists.len() == template.len(),
        forall|i: int| 0 <= i < template.len() ==> #[trigger] exists[i],
    ensures
        chosen(template, exists, false, n) == Seq::<FileView>::empty(),
    decreases n,
{
    if n > 0 {
        lemma_nothing_chosen(template, exists, (n - 1) as nat);
        assert(exists[n - 1]);
    }
}

proof fn lemma_written_holds(fs: FileSystem, files: Seq<FileView>, i: int)
    requires
        distinct_paths(files),
        0 <= i < files.len(),
    ensures
        written(fs, files).contains_key(files[i].path),
        written(fs, files)[files[i].path] == files[i].content,
    decreases files.len(),
{
    let rest = files.drop_last();
    if i < files.len() - 1 {
        assert forall|a: int, b: int|
            #![trigger rest[a], rest[b]]
            0 <= a < b < rest.len() implies rest[a].path != rest[b].path by {
            assert(rest[a] == files[a] && rest[b] == files[b]);
        }
        assert(rest[i] == files[i]);
        lemma_written_holds(fs, rest, i);
        assert(files[files.len() - 1] == files.last());
        assert(files[i].path != files[files.len() - 1].path);
    }
}

proof fn lemma_forced_is_whole(template: Seq<FileView>, exists: Seq<bool>, n: nat)
    requires
        n <= template.len(),
    ensures
        chosen(template, exists, true, n) == template.take(n as int),
    decreases n,
{
    if n > 0 {
        lemma_forced_is_whole(template, exists, (n - 1) as nat);
        assert(template.take(n - 1).push(template[n - 1]) =~= template.take(n as int));
    } else {
        assert(template.take(0) =~= seq![]);
    }
}

/// With force every file of a template holds what the template says.
pub proof fn law_force_restores_the_template(fs: FileSystem, template: Seq<FileView>, i: int)
    requires
        distinct_paths(template),
        0 <= i < template.len(),
    ensures
        after_writing(fs, template, true).contains_key(template[i].path),
        after_writing(fs, template, true)[template[i].path] == template[i].content,
{
    lemma_forced_is_whole(template, present(fs, template), template.len());
    assert(template.take(template.len() as int) =~= template);
    lemma_written_holds(fs, template, i);
}

/// Files that are missing are written as the template has them.
pub proof fn law_missing_files_are_written(fs: FileSystem, template: Seq<FileView>, i: int)
    requires
        distinct_paths(template),
        0 <= i < template.len(),
        !fs.contains_key(template[i].path),
    ensures
        after_writing(fs, template, false)[template[i].path] == template[i].content,
{
    let exists = present(fs, template);
    lemma_chosen_content(template, exists, template.len(), i);
    let files = chosen(template, exists, false, template.len());
    let k = choose|k: int| 0 <= k < files.len() && files[k] == template[i];
    lemma_chosen_distinct(template, exists, template.len());
    lemma_written_holds(fs, files, k);
}

proof fn lemma_chosen_content(template: Seq<FileView>, exists: Seq<bool>, n: nat, i: int)
    requires
        distinct_paths(template),
        0 <= i < n <= template.len(),
        exists.len() == template.len(),
        !exists[i],
    ensures
        chosen(template, exists, false, n).contains(template[i]),
    decreases n,
{
    let c = chosen(template, exists, false, n);
    if i == n - 1 {
        assert(!came_before(template, i));
        assert(c[c.len() - 1] == template[i]);
    } else {
        lemma_chosen_content(template, exists, (n - 1) as nat, i);
        let b = chosen(template, exists, false, (n - 1) as nat);
        let k = choose|k: int| 0 <= k < b.len() && b[k] == template[i];
        assert(c[k] == template[i]);
    }
}

proof fn lemma_chosen_from(template: Seq<FileView>, exists: Seq<bool>, n: nat, k: int) -> (j: int)
    requires
        n <= template.len(),
        0 <= k < chosen(template, exists, false, n).len(),
    ensures
        0 <= j < n,
        chosen(template, exists, false, n)[k] == template[j],
    decreases n,
{
    if is_written(template, exists, false, n - 1) && k == chosen(
        template,
        exists,
        false,
        (n - 1) as nat,
    ).len() {
        n - 1
    } else {
        lemma_chosen_from(template, exists, (n - 1) as nat, k)
    }
}

proof fn lemma_chosen_distinct(template: Seq<FileView>, exists: Seq<bool>, n: nat)
    requires
        distinct_paths(template),
        n <= template.len(),
    ensures
        distinct_paths(chosen(template, exists, false, n)),
    decreases n,
{
    if n > 0 {
        lemma_chosen_distinct(template, exists, (n - 1) as nat);
        let b = chosen(template, exists, false, (n - 1) as nat);
        let c = chosen(template, exists, false, n);
        if is_written(template, exists, false, n - 1) {
            assert forall|i: int, j: int|
                #![trigger c[i], c[j]]
                0 <= i < j < c.len() implies c[i].path != c[j].path by {
                if j == b.len() {
                    let m = lemma_chosen_from(template, exists, (n - 1) as nat, i);
                    assert(template[m].path != template[n - 1].path);
                } else {
                    assert(b[i].path != b[j].path);
                }
            }
        }
    }
}

/// Each file of a template is either written or skipped.
pub proof fn law_files_are_written_or_skipped(
    template: Seq<FileView>,
    exists: Seq<bool>,
    force: bool,
    n: nat,
)
    ensures
        chosen(template, exists, force, n).len() + kept(template, exists, force, n).len() == n,
        force ==> kept(template, exists, force, n).len() == 0,
    decreases n,
{
    if n > 0 {
        law_files_are_written_or_skipped(template, exists, force, (n - 1) as nat);
    }
}

/// Files keep their number, their order, their paths and their contents.
pub proof fn law_files_keep_their_contents(v: Seq<NewFile>, i: int)
    requires
        0 <= i < v.len(),
    ensures
        file_views(v).len() == v.len(),
        file_views(v)[i].path == v[i].path@,
        file_views(v)[i].content == v[i].content@,
        file_paths(file_views(v)).len() == v.len(),
        file_paths(file_views(v))[i] == v[i].path@,
{
}

} // verus!
