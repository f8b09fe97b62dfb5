//! Finding the file that a program name stands for.
//!
//! The library does not touch the file system. It says which paths to probe
//! and in which order, and what the answers amount to; the caller probes.

use vstd::prelude::*;
use crate::text::{words, lemma_words_push, concat, join_with};

verus! {

/// The separator between the components of a path.
pub const PATH_SEPARATOR: char = '/';

/// The separator between the directories of a search path.
pub const LIST_SEPARATOR: char = ':';

/// The final component of `path` as `std::path::Path::file_name` gives it, if
/// it has one.
pub uninterp spec fn file_name_of(path: Seq<char>) -> Option<Seq<char>>;

/// `name` adjoined to `dir` as `std::path::Path::join` does it.
pub uninterp spec fn joined_path(dir: Seq<char>, name: Seq<char>) -> Seq<char>;

/// The characters of an optional string.
pub open spec fn opt_text(s: Option<String>) -> Option<Seq<char>> {
    match s {
        Some(t) => Some(t@),
        None => None,
    }
}

/// Calls `std::path::Path::file_name`. Taken on trust: the final component
/// depends on the path's text alone, and is what [`file_name_of`] names.
/// Nothing more is claimed of it.
#[verifier::external_body]
fn final_component(path: &str) -> (r: Option<String>)
    ensures
        opt_text(r) == file_name_of(path@),
{
    match std::path::Path::new(path).file_name() {
        Some(name) => Some(name.to_string_lossy().into_owned()),
        None => None,
    }
}

/// Calls `std::path::Path::join`. Taken on trust: the joined path depends on
/// the two texts alone, and is what [`joined_path`] names. Nothing more is
/// claimed of it.
#[verifier::external_body]
fn join_path(dir: &str, name: &str) -> (r: String)
    ensures
        r@ == joined_path(dir@, name@),
{
    std::path::Path::new(dir).join(name).to_string_lossy().into_owned()
}

/// Whether `program` holds a path separator, and so is a path of its own
/// rather than a name to look up.
pub fn is_direct_path(program: &str) -> (r: bool)
    ensures
        r == program@.contains(PATH_SEPARATOR),
{
    let mut found = false;
    for c in it: program.chars()
        invariant
            it.seq() == program@,
            found == program@.take(it.index()).contains(PATH_SEPARATOR),
    {
        proof {
            let before = program@.take(it.index());
            let after = program@.take(it.index() + 1);
            assert(after =~= before.push(c));
            if before.contains(PATH_SEPARATOR) {
                let k = choose|k: int| 0 <= k < before.len() && before[k] == PATH_SEPARATOR;
                assert(after[k] == PATH_SEPARATOR);
            }
            if c == PATH_SEPARATOR {
                assert(after[it.index()] == PATH_SEPARATOR);
            }
        }
        if c == PATH_SEPARATOR {
            found = true;
        }
    }
    assert(program@.take(program@.len() as int) =~= program@);
    found
}

/// The name under which a program is started, given the final component of
/// its path: the program's own text where it holds no path separator, else
/// that final component, and the whole text where there is none.
pub open spec fn name_or_program_spec(program: Seq<char>, component: Option<Seq<char>>) -> Seq<
    char,
> {
    if !program.contains(PATH_SEPARATOR) {
        program
    } else {
        match component {
            Some(name) => name,
            None => program,
        }
    }
}

/// The name under which a program is started: the program's own text where
/// it holds no path separator, else its final component, and the whole text
/// where it has none.
pub open spec fn presented_name_spec(program: Seq<char>) -> Seq<char> {
    name_or_program_spec(program, file_name_of(program))
}

/// The name to present to the process that runs `program`, given the final
/// component of `program` as a path, if it has one.
pub fn name_or_program(program: &str, component: Option<String>) -> (name: String)
    ensures
        name@ == name_or_program_spec(program@, opt_text(component)),
{
    if !is_direct_path(program) {
        return String::from_str(program);
    }
    match component {
        Some(name) => name,
        None => String::from_str(program),
    }
}

/// The name to present to the process that runs `program`.
pub fn presented_name(program: &str) -> (name: String)
    ensures
        name@ == presented_name_spec(program@),
{
    name_or_program(program, final_component(program))
}

/// The pieces of `s` between occurrences of `sep`: one more than there are
/// separators, empty pieces included.
pub open spec fn split_on(s: Seq<char>, sep: char) -> Seq<Seq<char>>
    decreases s.len(),
{
    if s.len() == 0 {
        seq![Seq::empty()]
    } else {
        let head = split_on(s.drop_last(), sep);
        if s.last() == sep {
            head.push(Seq::empty())
        } else {
            head.drop_last().push(head.last().push(s.last()))
        }
    }
}

/// A split always yields at least one piece.
pub proof fn lemma_split_nonempty(s: Seq<char>, sep: char)
    ensures
        split_on(s, sep).len() >= 1,
    decreases s.len(),
{
    if s.len() > 0 {
        lemma_split_nonempty(s.drop_last(), sep);
    }
}

/// No piece of a split holds the separator.
pub proof fn lemma_split_pieces_hold_no_separator(s: Seq<char>, sep: char)
    ensures
        forall|i: int, k: int|
            0 <= i < split_on(s, sep).len() && 0 <= k < split_on(s, sep)[i].len()
                ==> #[trigger] split_on(s, sep)[i][k] != sep,
    decreases s.len(),
{
    if s.len() > 0 {
        lemma_split_nonempty(s.drop_last(), sep);
        lemma_split_pieces_hold_no_separator(s.drop_last(), sep);
    }
}

/// Joining the pieces of a split with the separator gives the text back.
/// With [`lemma_split_pieces_hold_no_separator`] this fixes the pieces: they
/// are the stretches of the text between its separators, in order.
pub proof fn lemma_split_then_join(s: Seq<char>, sep: char)
    ensures
        join_with(split_on(s, sep), sep) == s,
    decreases s.len(),
{
    if s.len() == 0 {
        assert(join_with(seq![Seq::<char>::empty()], sep) =~= s);
    } else {
        let rest = s.drop_last();
        let head = split_on(rest, sep);
        let all = split_on(s, sep);
        lemma_split_nonempty(rest, sep);
        lemma_split_then_join(rest, sep);
        if s.last() == sep {
            assert(all.drop_last() =~= head);
            assert(join_with(all, sep) =~= s);
        } else if head.len() == 1 {
            assert(join_with(all, sep) =~= s);
        } else {
            let front = join_with(head.drop_last(), sep) + seq![sep];
            assert(all.drop_last() =~= head.drop_last());
            assert(all.last() == head.last().push(s.last()));
            assert(join_with(head, sep) == front + head.last());
            assert(join_with(all, sep) == front + all.last());
            assert(front + all.last() =~= (front + head.last()).push(s.last()));
            assert(rest.push(s.last()) =~= s);
        }
    }
}

/// Splits `s` at every `sep`.
pub fn split_list(s: &str, sep: char) -> (pieces: Vec<String>)
    ensures
        words(pieces@) == split_on(s@, sep),
{
    let mut done: Vec<String> = Vec::new();
    let mut cur = String::new();
    assert(s@.take(0) =~= Seq::<char>::empty());
    assert(words(done@).push(cur@) =~= seq![Seq::<char>::empty()]);
    for c in it: s.chars()
        invariant
            it.seq() == s@,
            split_on(s@.take(it.index()), sep) == words(done@).push(cur@),
    {
        proof {
            let after = s@.take(it.index() + 1);
            assert(after.drop_last() =~= s@.take(it.index()));
            assert(after.last() == c);
            assert(words(done@).push(cur@).drop_last() =~= words(done@));
        }
        if c == sep {
            proof {
                lemma_words_push(done@, cur);
            }
            done.push(cur);
            cur = String::new();
        } else {
            cur.push(c);
        }
    }
    assert(s@.take(s@.len() as int) =~= s@);
    proof {
        lemma_words_push(done@, cur);
    }
    done.push(cur);
    done
}

/// The directories of a search path, from left to right: the pieces of its
/// value between the list separators. An unset or empty search path has no
/// directory; an empty piece of a value that holds more is a directory, the
/// one that the empty path names.
pub open spec fn search_dirs_spec(search_path: Option<Seq<char>>) -> Seq<Seq<char>> {
    match search_path {
        Some(list) if list.len() > 0 => split_on(list, LIST_SEPARATOR),
        _ => Seq::empty(),
    }
}

/// The directories of a search path, in order. `search_path` is the value of
/// the search-path variable, `None` where it is unset.
pub fn search_dirs(search_path: Option<&str>) -> (dirs: Vec<String>)
    ensures
        words(dirs@) == search_dirs_spec(opt_str(search_path)),
{
    match search_path {
        Some(list) => {
            if list.is_empty() {
                let dirs: Vec<String> = Vec::new();
                assert(words(dirs@) =~= Seq::<Seq<char>>::empty());
                dirs
            } else {
                split_list(list, LIST_SEPARATOR)
            }
        },
        None => {
            let dirs: Vec<String> = Vec::new();
            assert(words(dirs@) =~= Seq::<Seq<char>>::empty());
            dirs
        },
    }
}

/// The paths to probe for `program`, in the order in which they are probed.
///
/// A program that holds a path separator is its own and only candidate. Any
/// other is looked up in the directories of the search path, from left to
/// right, each directory giving the path of the program joined to it.
pub open spec fn candidates_spec(program: Seq<char>, search_path: Option<Seq<char>>) -> Seq<
    Seq<char>,
> {
    if program.contains(PATH_SEPARATOR) {
        seq![program]
    } else {
        let dirs = search_dirs_spec(search_path);
        Seq::new(dirs.len(), |i: int| joined_path(dirs[i], program))
    }
}

/// The paths to probe for `program`, in order. `search_path` is the value of
/// the search-path variable, `None` where it is unset.
pub fn candidates(program: &str, search_path: Option<&str>) -> (paths: Vec<String>)
    ensures
        words(paths@) == candidates_spec(program@, opt_str(search_path)),
{
    let mut paths: Vec<String> = Vec::new();
    if is_direct_path(program) {
        paths.push(String::from_str(program));
        assert(words(paths@) =~= seq![program@]);
        return paths;
    }
    let dirs = search_dirs(search_path);
    let mut i: usize = 0;
    while i < dirs.len()
        invariant
            i <= dirs.len(),
            paths@.len() == i,
            forall|k: int| 0 <= k < i ==> (#[trigger] paths@[k])@ == joined_path(dirs@[k]@, program@),
        decreases dirs.len() - i,
    {
        paths.push(join_path(dirs[i].as_str(), program));
        i += 1;
    }
    assert(words(paths@) =~= candidates_spec(program@, opt_str(search_path)));
    paths
}

/// The characters of an optional string slice.
pub open spec fn opt_str(s: Option<&str>) -> Option<Seq<char>> {
    match s {
        Some(t) => Some(t@),
        None => None,
    }
}

/// Whether `i` is the first candidate that was probed and found runnable.
/// `limit` is the number of candidates; answers beyond it do not count.
pub open spec fn is_first_hit(probes: Seq<bool>, limit: int, i: int) -> bool {
    &&& 0 <= i < limit
    &&& i < probes.len()
    &&& probes[i]
    &&& forall|j: int| 0 <= j < i ==> !#[trigger] probes[j]
}

/// At most one candidate is the first runnable one.
pub proof fn lemma_first_hit_is_unique(probes: Seq<bool>, limit: int, i: int, j: int)
    requires
        is_first_hit(probes, limit, i),
        is_first_hit(probes, limit, j),
    ensures
        i == j,
{
    if i < j {
        assert(!probes[i]);
    } else if j < i {
        assert(!probes[j]);
    }
}

/// Probing one by one and stopping early loses nothing. Let `answers` say
/// of every candidate whether it is runnable, and let `probes` be the answers
/// to the first few of them, made until one was runnable or none was left.
/// Then what `probes` gives is what `answers` gives.
pub proof fn lemma_early_stop_is_complete(
    answers: Seq<bool>,
    probes: Seq<bool>,
    limit: int,
    i: int,
)
    requires
        probes.len() <= answers.len(),
        forall|k: int| 0 <= k < probes.len() ==> probes[k] == answers[k],
        probes.len() >= limit || !no_hit(probes, limit),
    ensures
        is_first_hit(probes, limit, i) <==> is_first_hit(answers, limit, i),
        no_hit(probes, limit) <==> no_hit(answers, limit),
{
    if probes.len() < limit {
        let j = choose|j: int| 0 <= j < limit && j < probes.len() && probes[j];
        assert(answers[j]);
        if is_first_hit(answers, limit, i) {
            if j < i {
                assert(!answers[j]);
            }
        }
    }
}

/// Whether no candidate probed so far was found runnable.
pub open spec fn no_hit(probes: Seq<bool>, limit: int) -> bool {
    forall|j: int| 0 <= j < limit && j < probes.len() ==> !#[trigger] probes[j]
}

/// The index of the first runnable candidate among those probed, if any:
/// `probes[i]` says whether candidate `i` was found runnable, and `limit` is
/// the number of candidates.
pub fn first_hit(probes: &Vec<bool>, limit: usize) -> (r: Option<usize>)
    ensures
        match r {
            Some(i) => is_first_hit(probes@, limit as int, i as int),
            None => no_hit(probes@, limit as int),
        },
{
    let mut i: usize = 0;
    while i < limit && i < probes.len()
        invariant
            forall|j: int| 0 <= j < i ==> !#[trigger] probes@[j],
            i <= limit,
            i <= probes.len(),
        decreases probes.len() - i,
    {
        if probes[i] {
            return Some(i);
        }
        i += 1;
    }
    None
}

/// The path to probe next, given the answers to the probes made so far:
/// `probes[i]` says whether candidate `i` was found runnable.
///
/// Candidates are probed one by one in their order, until one is runnable or
/// none is left: then there is nothing more to probe, and
/// [`resolve_executable`] gives the outcome.
pub fn next_probe(program: &str, search_path: Option<&str>, probes: &Vec<bool>) -> (next: Option<
    String,
>)
    ensures
        ({
            let paths = candidates_spec(program@, opt_str(search_path));
            match next {
                Some(path) => {
                    &&& no_hit(probes@, paths.len() as int)
                    &&& probes@.len() < paths.len()
                    &&& path@ == paths[probes@.len() as int]
                },
                None => probes@.len() >= paths.len() || !no_hit(probes@, paths.len() as int),
            }
        }),
{
    let paths = candidates(program, search_path);
    match first_hit(probes, paths.len()) {
        Some(i) => {
            assert(probes@[i as int]);
            None
        },
        None => {
            if probes.len() < paths.len() {
                Some(paths[probes.len()].clone())
            } else {
                None
            }
        },
    }
}

/// The file that `program` stands for and the name to present to it, given
/// the answers to the probes of its candidates: `probes[i]` says whether
/// candidate `i` was found runnable, and a candidate without an answer counts
/// as not runnable.
///
/// The first runnable candidate wins. Without one there is no result.
pub fn resolve_executable(program: &str, search_path: Option<&str>, probes: &Vec<bool>) -> (found:
    Option<(String, String)>)
    ensures
        ({
            let paths = candidates_spec(program@, opt_str(search_path));
            match found {
                Some((path, name)) => {
                    &&& exists|i: int| #[trigger]
                        is_first_hit(probes@, paths.len() as int, i) && path@ == paths[i]
                    &&& name@ == presented_name_spec(program@)
                },
                None => no_hit(probes@, paths.len() as int),
            }
        }),
{
    let paths = candidates(program, search_path);
    match first_hit(probes, paths.len()) {
        Some(i) => {
            let path = paths[i].clone();
            proof {
                let all = candidates_spec(program@, opt_str(search_path));
                assert(all.len() == paths@.len());
                assert(is_first_hit(probes@, all.len() as int, i as int));
                assert(path@ == all[i as int]);
            }
            Some((path, presented_name(program)))
        },
        None => None,
    }
}

/// The line that says that the file found for `display_name` could not be
/// started, with the platform's words for the reason.
pub open spec fn spawn_failure_report_spec(display_name: Seq<char>, reason: Seq<char>) -> Seq<char> {
    display_name + ": failed to execute: "@ + reason
}

/// The line written to the error stream when a program could not be started.
/// `display_name` is the program as it was typed, `reason` the platform's
/// words for what went wrong.
pub fn spawn_failure_report(display_name: &str, reason: &str) -> (line: String)
    ensures
        line@ == spawn_failure_report_spec(display_name@, reason@),
{
    let mut line = concat(display_name, ": failed to execute: ");
    line.append(reason);
    line
}

} // verus!
