//! Where an export of the collected records goes, and what is written there.
//!
//! Nothing here touches the disk: an [`ExportPlan`] names the directory to
//! make, the file to create and the bytes to put in it.

use vstd::prelude::*;
use vstd::string::StrSliceExecFns;
use vstd::string::StringExecFns;

verus! {

/// The byte between two records of an export.
pub const NEWLINE: u8 = 10;

/// The records one after the other, with one newline between neighbours and
/// none behind the last.
pub open spec fn joined_lines(records: Seq<Seq<u8>>) -> Seq<u8>
    decreases records.len(),
{
    if records.len() == 0 {
        Seq::empty()
    } else if records.len() == 1 {
        records[0]
    } else {
        joined_lines(records.drop_last()) + seq![NEWLINE] + records.last()
    }
}

/// The dot at `at` belongs to the last component of `path`: no `/` stands
/// behind it.
pub open spec fn is_extension_dot(path: Seq<char>, at: int) -> bool {
    &&& 0 <= at < path.len()
    &&& path[at] == '.'
    &&& forall|j: int| at < j < path.len() ==> path[j] != '/'
}

/// A path has an extension when a dot stands in its last component, the
/// part behind the last `/`. A dot in a directory's name does not count:
/// `a.b/out` and `./out` have no extension. A dot that leads the last
/// component counts like any other: `.hidden` has one, and so have `.` and
/// `..`.
pub open spec fn has_extension(path: Seq<char>) -> bool {
    exists|at: int| is_extension_dot(path, at)
}

/// What is left of a url when its leading `http://` or `https://` is cut off.
pub open spec fn without_scheme(url: Seq<char>) -> Seq<char> {
    if "http://"@.is_prefix_of(url) {
        url.skip("http://"@.len() as int)
    } else if "https://"@.is_prefix_of(url) {
        url.skip("https://"@.len() as int)
    } else {
        url
    }
}

/// The part of a path in front of its last `/`; empty where it has none.
pub open spec fn parent_directory(path: Seq<char>) -> Seq<char>
    decreases path.len(),
{
    if path.len() == 0 {
        Seq::empty()
    } else if path.last() == '/' {
        path.drop_last()
    } else {
        parent_directory(path.drop_last())
    }
}

/// The file of an export: the path asked for, with `.jsonl` put behind it
/// where it has no extension; without a path, a file under `./storage` named
/// after the session's url.
pub open spec fn export_file(path: Option<Seq<char>>, url: Seq<char>) -> Seq<char> {
    match path {
        Some(p) => if has_extension(p) {
            p
        } else {
            p + ".jsonl"@
        },
        None => "./storage/"@ + without_scheme(url) + ".jsonl"@,
    }
}

/// What an export does on disk.
pub struct ExportPlan {
    /// The directory to create, with its parents, before the file is made.
    /// Empty where the file stands in the working directory.
    pub directory: String,
    /// The file to create or overwrite.
    pub file: String,
    /// The bytes of the file.
    pub contents: Vec<u8>,
}

/// Whether `path` has an extension: see [`has_extension`].
pub fn path_has_extension(path: &str) -> (found: bool)
    ensures
        found == has_extension(path@),
{
    let mut found = false;
    let ghost mut slash: int = -1;
    let ghost mut dot: int = -1;
    for c in it: path.chars()
        invariant
            it.seq() == path@,
            -1 <= slash < it.index(),
            slash >= 0 ==> path@[slash] == '/',
            forall|j: int| slash < j < it.index() ==> path@[j] != '/',
            found ==> slash < dot < it.index() && path@[dot] == '.',
            !found ==> forall|k: int| slash < k < it.index() ==> path@[k] != '.',
    {
        if c == '/' {
            found = false;
            proof {
                slash = it.index() as int;
            }
        } else if c == '.' {
            found = true;
            proof {
                dot = it.index() as int;
            }
        }
    }
    proof {
        if found {
            assert(is_extension_dot(path@, dot));
        } else {
            assert forall|at: int| !is_extension_dot(path@, at) by {
                if is_extension_dot(path@, at) {
                    if at < slash {
                        assert(path@[slash] == '/');
                    }
                }
            }
        }
    }
    found
}

/// Whether `text` begins with `prefix`.
fn begins_with(text: &str, prefix: &str) -> (begins: bool)
    ensures
        begins == prefix@.is_prefix_of(text@),
{
    let n = prefix.unicode_len();
    if text.unicode_len() < n {
        return false;
    }
    let mut i: usize = 0;
    while i < n
        invariant
            i <= n,
            n == prefix@.len(),
            n <= text@.len(),
            forall|j: int| 0 <= j < i ==> text@[j] == prefix@[j],
        decreases n - i,
    {
        if text.get_char(i) != prefix.get_char(i) {
            return false;
        }
        i = i + 1;
    }
    assert(text@.subrange(0, n as int) =~= prefix@);
    true
}

/// A url without its leading `http://` or `https://`.
pub fn strip_scheme(url: &str) -> (rest: &str)
    ensures
        rest@ == without_scheme(url@),
{
    let n = url.unicode_len();
    if begins_with(url, "http://") {
        let k = "http://".unicode_len();
        url.substring_char(k, n)
    } else if begins_with(url, "https://") {
        let k = "https://".unicode_len();
        url.substring_char(k, n)
    } else {
        url
    }
}

/// The directory that holds `path`.
pub fn parent_of(path: &str) -> (parent: &str)
    ensures
        parent@ == parent_directory(path@),
{
    let n = path.unicode_len();
    let mut cut: usize = 0;
    let mut seen = false;
    let mut i: usize = 0;
    for c in it: path.chars()
        invariant
            it.seq() == path@,
            n == path@.len(),
            i == it.index(),
            cut <= i,
            seen ==> parent_directory(path@.take(i as int)) == path@.take(cut as int),
            !seen ==> parent_directory(path@.take(i as int)) == Seq::<char>::empty(),
    {
        assert(path@.take(i + 1).drop_last() =~= path@.take(i as int));
        if c == '/' {
            cut = i;
            seen = true;
        }
        i = i + 1;
    }
    assert(path@.take(n as int) =~= path@);
    if seen {
        path.substring_char(0, cut)
    } else {
        path.substring_char(0, 0)
    }
}

/// The file that an export writes: see [`export_file`].
pub fn export_target(path: Option<String>, url: &str) -> (file: String)
    ensures
        file@ == export_file(
            match path {
                Some(p) => Some(p@),
                None => None,
            },
            url@,
        ),
{
    match path {
        Some(p) => {
            if path_has_extension(p.as_str()) {
                p
            } else {
                p.concat(".jsonl")
            }
        },
        None => {
            let named = String::from_str("./storage/").concat(strip_scheme(url));
            named.concat(".jsonl")
        },
    }
}

/// The records as the bytes of one file: see [`joined_lines`].
pub fn join_records(records: &Vec<Vec<u8>>) -> (contents: Vec<u8>)
    ensures
        contents@ == joined_lines(records.deep_view()),
{
    let mut contents: Vec<u8> = Vec::new();
    let mut i: usize = 0;
    while i < records.len()
        invariant
            i <= records.len(),
            contents@ == joined_lines(records.deep_view().take(i as int)),
        decreases records.len() - i,
    {
        let ghost before = contents@;
        if i > 0 {
            contents.push(NEWLINE);
        }
        let record = &records[i];
        let mut j: usize = 0;
        while j < record.len()
            invariant
                j <= record.len(),
                contents@ == if i > 0 {
                    before + seq![NEWLINE] + record@.take(j as int)
                } else {
                    before + record@.take(j as int)
                },
            decreases record.len() - j,
        {
            contents.push(record[j]);
            j = j + 1;
        }
        proof {
            let all = records.deep_view();
            let head = all.take(i + 1);
            assert(record@.take(record.len() as int) =~= record@);
            assert(head.drop_last() =~= all.take(i as int));
            assert(head.last() == record@);
            if i == 0 {
                assert(before + record@ =~= record@);
            }
        }
        i = i + 1;
    }
    assert(records.deep_view().take(records.len() as int) =~= records.deep_view());
    contents
}

/// The plan of an export of `records` for a session on `url`.
pub fn plan_export(records: &Vec<Vec<u8>>, path: Option<String>, url: &str) -> (plan: ExportPlan)
    ensures
        plan.file@ == export_file(
            match path {
                Some(p) => Some(p@),
                None => None,
            },
            url@,
        ),
        plan.directory@ == parent_directory(plan.file@),
        plan.contents@ == joined_lines(records.deep_view()),
{
    let file = export_target(path, url);
    let directory = String::from_str(parent_of(file.as_str()));
    let contents = join_records(records);
    ExportPlan { directory, file, contents }
}

/// How often `byte` stands in `bytes`.
pub open spec fn count_of(bytes: Seq<u8>, byte: u8) -> nat
    decreases bytes.len(),
{
    if bytes.len() == 0 {
        0
    } else {
        count_of(bytes.drop_last(), byte) + if bytes.last() == byte {
            1nat
        } else {
            0nat
        }
    }
}

/// The bytes of all records taken together.
pub open spec fn total_len(records: Seq<Seq<u8>>) -> nat
    decreases records.len(),
{
    if records.len() == 0 {
        0
    } else {
        total_len(records.drop_last()) + records.last().len()
    }
}

/// A byte stands in two stretches of bytes put together as often as in the
/// one and in the other.
pub proof fn lemma_count_of_concat(front: Seq<u8>, back: Seq<u8>, byte: u8)
    ensures
        count_of(front + back, byte) == count_of(front, byte) + count_of(back, byte),
    decreases back.len(),
{
    if back.len() == 0 {
        assert(front + back =~= front);
    } else {
        lemma_count_of_concat(front, back.drop_last(), byte);
        assert((front + back).drop_last() =~= front + back.drop_last());
        assert((front + back).last() == back.last());
    }
}

/// A byte that stands nowhere in a stretch of bytes is counted 0 times.
pub proof fn lemma_count_of_absent(bytes: Seq<u8>, byte: u8)
    requires
        !bytes.contains(byte),
    ensures
        count_of(bytes, byte) == 0,
    decreases bytes.len(),
{
    if bytes.len() > 0 {
        assert(bytes[bytes.len() - 1] != byte);
        assert forall|i: int| 0 <= i < bytes.drop_last().len() implies bytes.drop_last()[i]
            != byte by {
            assert(bytes.drop_last()[i] == bytes[i]);
        }
        lemma_count_of_absent(bytes.drop_last(), byte);
    }
}

/// An export is as long as its records taken together and one newline for
/// each record but the first.
pub proof fn lemma_joined_lines_len(records: Seq<Seq<u8>>)
    ensures
        joined_lines(records).len() == total_len(records) + if records.len() > 0 {
            records.len() - 1
        } else {
            0
        },
    decreases records.len(),
{
    if records.len() == 1 {
        assert(records.drop_last().len() == 0);
        assert(total_len(records.drop_last()) == 0);
    } else if records.len() > 1 {
        lemma_joined_lines_len(records.drop_last());
    }
}

/// An export of records that hold no newline themselves has one line for
/// each record: one newline less than there are records, and, where the last
/// record is not empty, no newline at its end.
pub proof fn lemma_one_line_for_each_record(records: Seq<Seq<u8>>)
    requires
        records.len() > 0,
        forall|i: int| 0 <= i < records.len() ==> !(#[trigger] records[i]).contains(NEWLINE),
    ensures
        count_of(joined_lines(records), NEWLINE) == records.len() - 1,
        records.last().len() > 0 ==> joined_lines(records).last() != NEWLINE,
    decreases records.len(),
{
    let last = records.last();
    assert(!records[records.len() - 1].contains(NEWLINE));
    lemma_count_of_absent(last, NEWLINE);
    if records.len() > 1 {
        let front = records.drop_last();
        assert forall|i: int| 0 <= i < front.len() implies !(#[trigger] front[i]).contains(
            NEWLINE,
        ) by {
            assert(front[i] == records[i]);
        }
        lemma_one_line_for_each_record(front);
        let head = joined_lines(front) + seq![NEWLINE];
        lemma_count_of_concat(joined_lines(front), seq![NEWLINE], NEWLINE);
        lemma_count_of_concat(head, last, NEWLINE);
        assert(count_of(seq![NEWLINE], NEWLINE) == 1) by {
            assert(seq![NEWLINE].drop_last() =~= Seq::<u8>::empty());
            assert(count_of(Seq::<u8>::empty(), NEWLINE) == 0);
        }
        if last.len() > 0 {
            assert(joined_lines(records).last() == last.last());
            assert(last[last.len() - 1] != NEWLINE);
        }
    } else {
        if last.len() > 0 {
            assert(last[last.len() - 1] != NEWLINE);
        }
    }
}

} // verus!
