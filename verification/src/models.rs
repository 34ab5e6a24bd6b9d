//! The models directory: reading its configured location, and choosing the
//! model files among what it holds.

use vstd::prelude::*;
use crate::command::JobError;
use crate::paths::{extension, join, path_extension, path_join};
use crate::settings::embedded_model;
use crate::text::{
    chars_of, lowercase, lowercase_chars, matches_at, occurs_at, same_chars, same_text, string_of,
    strip_bounds, stripped, sub_vec, trim_bounds, trimmed, CharClass,
};

verus! {

/// Whether `c` is an ASCII letter.
pub open spec fn is_ascii_letter(c: char) -> bool {
    'a' <= c <= 'z' || 'A' <= c <= 'Z'
}

/// A location without the scheme of a file URL before it.
///
/// After the scheme `file://` a slash before a drive letter and a colon is
/// dropped too, so that `file:///C:/models` names `C:/models`.
pub open spec fn without_file_scheme(s: Seq<char>) -> Seq<char> {
    if occurs_at(s, "file://"@, 0) {
        let rest = s.skip(7);
        if rest.len() > 2 && rest[0] == '/' && is_ascii_letter(rest[1]) && rest[2] == ':' {
            rest.skip(1)
        } else {
            rest
        }
    } else {
        s
    }
}

/// The directory that a configured location names: the location without
/// whitespace around it, without the scheme of a file URL, and without
/// double quotes around it.
pub open spec fn models_dir_of(raw: Seq<char>) -> Seq<char> {
    stripped(without_file_scheme(trimmed(raw)), CharClass::Quote)
}

/// Reads the models directory from its configured location.
pub fn normalize_models_dir(raw: &str) -> (dir: String)
    ensures
        dir@ == models_dir_of(raw@),
{
    let v = chars_of(raw);
    let (from, to) = trim_bounds(&v);
    let t = sub_vec(&v, from, to);
    let scheme = chars_of("file://");
    proof {
        reveal_strlit("file://");
    }
    let mut start: usize = 0;
    if matches_at(&t, 0, &scheme) {
        start = 7;
        if t.len() - 7 > 2 && t[7] == '/' && (('a' <= t[8] && t[8] <= 'z') || ('A' <= t[8] && t[8]
            <= 'Z')) && t[9] == ':' {
            start = 8;
            assert(t@.skip(7).skip(1) =~= t@.skip(8));
        }
    }
    let u = sub_vec(&t, start, t.len());
    assert(u@ =~= without_file_scheme(trimmed(raw@)));
    let (a, b) = strip_bounds(&u, CharClass::Quote);
    string_of(&u, a, b)
}

/// The path at which to look for a model of the given name.
///
/// The embedded model needs no look: it is always there. For any other a
/// models directory must be configured; the model is the file of that name
/// in it.
pub fn model_path_to_check(models_dir: Option<&str>, model_name: &str) -> (r: Result<
    Option<String>,
    JobError,
>)
    ensures
        model_name@ == embedded_model() ==> r matches Ok(None),
        model_name@ != embedded_model() ==> match models_dir {
            Some(dir) => r matches Ok(Some(path)) && path@ == path_join(
                models_dir_of(dir@),
                model_name@,
            ),
            None => r matches Err(e) && e is Configuration,
        },
{
    if same_text(model_name, "ggml-tiny-q5_1.bin") {
        return Ok(None);
    }
    match models_dir {
        Some(dir) => {
            let base = normalize_models_dir(dir);
            Ok(Some(join(base.as_str(), model_name)))
        },
        None => Err(JobError::Configuration),
    }
}

/// Whether a file is a model, by its name and the extension of the name:
/// the name begins with `ggml-` and the extension is `bin` in any case.
pub open spec fn is_model(name: Seq<char>, ext: Option<Seq<char>>) -> bool {
    occurs_at(name, "ggml-"@, 0) && match ext {
        Some(e) => lowercase(e) == "bin"@,
        None => false,
    }
}

/// Whether a file is a model, by its name.
pub open spec fn is_model_name(name: Seq<char>) -> bool {
    is_model(name, path_extension(name))
}

/// Whether a file is a model, by its name and the extension of the name.
pub fn is_model_file(name: &str, ext: Option<&str>) -> (b: bool)
    ensures
        b == is_model(
            name@,
            match ext {
                Some(e) => Some(e@),
                None => None,
            },
        ),
{
    let n = chars_of(name);
    let prefix = chars_of("ggml-");
    if !matches_at(&n, 0, &prefix) {
        return false;
    }
    match ext {
        Some(e) => {
            let lower = lowercase_chars(e);
            let bin = chars_of("bin");
            same_chars(&lower, &bin)
        },
        None => false,
    }
}

/// Whether a file is a model, by its name.
pub fn is_model_file_name(name: &str) -> (b: bool)
    ensures
        b == is_model_name(name@),
{
    match extension(name) {
        Some(e) => is_model_file(name, Some(e.as_str())),
        None => is_model_file(name, None),
    }
}

/// `k` characters are common to the start of `a` and of `b`.
pub open spec fn common_prefix(a: Seq<char>, b: Seq<char>, k: int) -> bool {
    &&& 0 <= k <= a.len()
    &&& k <= b.len()
    &&& forall|j: int| 0 <= j < k ==> a[j] == b[j]
}

/// After `k` common characters `a` ends and `b` goes on, or `a` has the
/// smaller character.
pub open spec fn precedes_at(a: Seq<char>, b: Seq<char>, k: int) -> bool {
    &&& common_prefix(a, b, k)
    &&& k < b.len()
    &&& k < a.len() ==> a[k] < b[k]
}

/// `a` stands before `b` in the order of strings: by the first character in
/// which they differ, and a text before any that it begins.
pub open spec fn precedes(a: Seq<char>, b: Seq<char>) -> bool {
    exists|k: int| precedes_at(a, b, k)
}

/// Each text of `list` stands before the ones after it.
pub open spec fn strictly_sorted(list: Seq<Seq<char>>) -> bool {
    forall|i: int, j: int| 0 <= i < j < list.len() ==> precedes(list[i], list[j])
}

/// The order of strings is transitive.
pub proof fn lemma_precedes_transitive(a: Seq<char>, b: Seq<char>, c: Seq<char>)
    requires
        precedes(a, b),
        precedes(b, c),
    ensures
        precedes(a, c),
{
    let k1 = choose|k: int| precedes_at(a, b, k);
    let k2 = choose|k: int| precedes_at(b, c, k);
    if k1 <= k2 {
        assert(precedes_at(a, c, k1));
    } else {
        assert(precedes_at(a, c, k2));
    }
}

/// A sorted list holds each of its texts once.
pub proof fn lemma_sorted_has_no_duplicates(list: Seq<Seq<char>>)
    requires
        strictly_sorted(list),
    ensures
        list.no_duplicates(),
{
    assert forall|i: int, j: int| 0 <= i < list.len() && 0 <= j < list.len() && i != j implies list[i]
        != list[j] by {
        if i < j {
            assert(precedes(list[i], list[j]));
        } else {
            assert(precedes(list[j], list[i]));
        }
    }
}

/// Two sorted lists that hold the same texts are the same list.
pub proof fn lemma_sorted_lists_equal(a: Seq<Seq<char>>, b: Seq<Seq<char>>)
    requires
        strictly_sorted(a),
        strictly_sorted(b),
        forall|s: Seq<char>| a.contains(s) <==> b.contains(s),
    ensures
        a == b,
    decreases a.len(),
{
    if a.len() == 0 {
        if b.len() > 0 {
            assert(b.contains(b[0]));
        }
        assert(a =~= b);
    } else if b.len() == 0 {
        assert(a.contains(a[0]));
    } else {
        // The last text of each list is the greatest text of both.
        let x = a.last();
        let y = b.last();
        assert(a.contains(x));
        assert(b.contains(y));
        let i = choose|i: int| 0 <= i < b.len() && b[i] == x;
        let j = choose|j: int| 0 <= j < a.len() && a[j] == y;
        if x != y {
            assert(i < b.len() - 1);
            assert(j < a.len() - 1);
            assert(precedes(b[i], b[b.len() - 1]));
            assert(precedes(a[j], a[a.len() - 1]));
            lemma_precedes_transitive(x, y, x);
        }
        let a0 = a.drop_last();
        let b0 = b.drop_last();
        assert forall|s: Seq<char>| a0.contains(s) <==> b0.contains(s) by {
            if a0.contains(s) {
                let k = choose|k: int| 0 <= k < a0.len() && a0[k] == s;
                assert(a[k] == s);
                assert(precedes(a[k], a[a.len() - 1]));
                assert(a.contains(s));
                let m = choose|m: int| 0 <= m < b.len() && b[m] == s;
                assert(b0[m] == s);
            }
            if b0.contains(s) {
                let k = choose|k: int| 0 <= k < b0.len() && b0[k] == s;
                assert(b[k] == s);
                assert(precedes(b[k], b[b.len() - 1]));
                assert(b.contains(s));
                let m = choose|m: int| 0 <= m < a.len() && a[m] == s;
                assert(a0[m] == s);
            }
        }
        assert forall|p: int, q: int| 0 <= p < q < a0.len() implies precedes(a0[p], a0[q]) by {
            assert(a0[p] == a[p] && a0[q] == a[q]);
        }
        assert forall|p: int, q: int| 0 <= p < q < b0.len() implies precedes(b0[p], b0[q]) by {
            assert(b0[p] == b[p] && b0[q] == b[q]);
        }
        lemma_sorted_lists_equal(a0, b0);
        assert(a =~= a0.push(x));
        assert(b =~= b0.push(y));
    }
}

/// How two texts stand to each other.
#[derive(Clone, Copy, Debug, PartialEq, Eq)]
pub enum Place {
    Before,
    Same,
    After,
}

/// How `a` stands to `b` in the order of strings.
pub fn place_of(a: &Vec<char>, b: &Vec<char>) -> (p: Place)
    ensures
        match p {
            Place::Before => precedes(a@, b@),
            Place::Same => a@ == b@,
            Place::After => precedes(b@, a@),
        },
{
    let mut i: usize = 0;
    while i < a.len() && i < b.len()
        invariant
            i <= a.len(),
            i <= b.len(),
            forall|j: int| 0 <= j < i ==> a@[j] == b@[j],
        decreases a.len() - i,
    {
        if a[i] < b[i] {
            assert(precedes_at(a@, b@, i as int));
            return Place::Before;
        }
        if a[i] > b[i] {
            assert(precedes_at(b@, a@, i as int));
            return Place::After;
        }
        i += 1;
    }
    if i < b.len() {
        assert(precedes_at(a@, b@, i as int));
        Place::Before
    } else if i < a.len() {
        assert(precedes_at(b@, a@, i as int));
        Place::After
    } else {
        assert(a@ =~= b@);
        Place::Same
    }
}

/// The views of a list of character vectors.
pub open spec fn texts(list: Seq<Vec<char>>) -> Seq<Seq<char>> {
    list.map_values(|v: Vec<char>| v@)
}

/// Puts `name` into a sorted list at index `i`, which is its place.
fn insert_at(list: &mut Vec<Vec<char>>, i: usize, name: Vec<char>)
    requires
        i <= old(list).len(),
        strictly_sorted(texts(old(list)@)),
        forall|j: int| 0 <= j < i ==> precedes(#[trigger] texts(old(list)@)[j], name@),
        i < old(list).len() ==> precedes(name@, texts(old(list)@)[i as int]),
    ensures
        strictly_sorted(texts(final(list)@)),
        forall|s: Seq<char>| #[trigger]
            texts(final(list)@).contains(s) <==> (texts(old(list)@).contains(s) || s == name@),
{
    let ghost before = texts(list@);
    list.insert(i, name);
    proof {
        let after = texts(list@);
        assert(after =~= before.insert(i as int, name@));
        assert forall|x: int, y: int| 0 <= x < y < after.len() implies precedes(
            after[x],
            after[y],
        ) by {
            if y < i {
                assert(after[x] == before[x] && after[y] == before[y]);
            } else if y == i {
                assert(after[x] == before[x]);
            } else if x == i {
                assert(after[y] == before[y - 1]);
                if y - 1 > i {
                    assert(precedes(before[i as int], before[y - 1]));
                    lemma_precedes_transitive(name@, before[i as int], before[y - 1]);
                }
            } else if x < i {
                assert(after[x] == before[x] && after[y] == before[y - 1]);
                if y - 1 > i {
                    assert(precedes(before[x], before[y - 1]));
                } else {
                    assert(precedes(before[x], name@));
                    lemma_precedes_transitive(before[x], name@, before[i as int]);
                }
            } else {
                assert(after[x] == before[x - 1] && after[y] == before[y - 1]);
            }
        }
        assert forall|s: Seq<char>| #[trigger]
            after.contains(s) <==> (before.contains(s) || s == name@) by {
            if after.contains(s) {
                let k = choose|k: int| 0 <= k < after.len() && after[k] == s;
                if k < i {
                    assert(before[k] == s);
                } else if k > i {
                    assert(before[k - 1] == s);
                }
            }
            if before.contains(s) {
                let k = choose|k: int| 0 <= k < before.len() && before[k] == s;
                if k < i {
                    assert(after[k] == s);
                } else {
                    assert(after[k + 1] == s);
                }
            }
            if s == name@ {
                assert(after[i as int] == s);
            }
        }
    }
}

/// Puts `name` into a sorted list at its place, unless it is there already.
fn insert_sorted(list: &mut Vec<Vec<char>>, name: Vec<char>)
    requires
        strictly_sorted(texts(old(list)@)),
    ensures
        strictly_sorted(texts(final(list)@)),
        forall|s: Seq<char>| #[trigger]
            texts(final(list)@).contains(s) <==> (texts(old(list)@).contains(s) || s == name@),
{
    let ghost before = texts(list@);
    let mut i: usize = 0;
    while i < list.len()
        invariant
            i <= list.len(),
            list@ == old(list)@,
            before == texts(list@),
            strictly_sorted(before),
            forall|j: int| 0 <= j < i ==> precedes(#[trigger] before[j], name@),
        decreases list.len() - i,
    {
        assert(before[i as int] == list@[i as int]@);
        match place_of(&list[i], &name) {
            Place::Before => {},
            Place::Same => {
                assert(before.contains(name@));
                return ;
            },
            Place::After => {
                insert_at(list, i, name);
                return ;
            },
        }
        i += 1;
    }
    insert_at(list, i, name);
}

/// Chooses the model files among the names of the files of a directory,
/// and puts them in order, each once.
///
/// A model file has a name that begins with `ggml-` and the extension
/// `bin`, in any case.
pub fn select_models(names: &Vec<String>) -> (models: Vec<String>)
    ensures
        strictly_sorted(models.deep_view()),
        forall|s: Seq<char>| #[trigger]
            models.deep_view().contains(s) <==> (names.deep_view().contains(s) && is_model_name(
                s,
            )),
{
    let mut chosen: Vec<Vec<char>> = Vec::new();
    let ghost all = names.deep_view();
    let mut i: usize = 0;
    assert(texts(chosen@) =~= Seq::<Seq<char>>::empty());
    while i < names.len()
        invariant
            i <= names.len(),
            all == names.deep_view(),
            strictly_sorted(texts(chosen@)),
            forall|s: Seq<char>| #[trigger]
                texts(chosen@).contains(s) <==> (all.take(i as int).contains(s) && is_model_name(
                    s,
                )),
        decreases names.len() - i,
    {
        let ghost seen = all.take(i as int);
        let ghost next = all.take(i + 1);
        let ghost name = names[i as int]@;
        let ghost old_chosen = texts(chosen@);
        assert(all[i as int] == name);
        assert(next =~= seen.push(name));
        let keep = is_model_file_name(names[i].as_str());
        if keep {
            insert_sorted(&mut chosen, chars_of(names[i].as_str()));
        }
        proof {
            assert forall|s: Seq<char>| #[trigger]
                texts(chosen@).contains(s) <==> (next.contains(s) && is_model_name(s)) by {
                if next.contains(s) {
                    let k = choose|k: int| 0 <= k < next.len() && next[k] == s;
                    if k < i {
                        assert(seen[k] == s);
                    }
                }
                if seen.contains(s) {
                    let k = choose|k: int| 0 <= k < seen.len() && seen[k] == s;
                    assert(next[k] == s);
                }
                assert(next[i as int] == name);
            }
        }
        i += 1;
    }
    assert(all.take(names.len() as int) =~= all);
    let mut models: Vec<String> = Vec::new();
    let mut k: usize = 0;
    while k < chosen.len()
        invariant
            k <= chosen.len(),
            models.deep_view() == texts(chosen@).take(k as int),
        decreases chosen.len() - k,
    {
        let s = string_of(&chosen[k], 0, chosen[k].len());
        assert(s@ =~= chosen@[k as int]@);
        let ghost done = models.deep_view();
        models.push(s);
        assert(models.deep_view() =~= done.push(chosen@[k as int]@));
        assert(texts(chosen@).take(k + 1) =~= texts(chosen@).take(k as int).push(
            chosen@[k as int]@,
        ));
        k += 1;
    }
    assert(texts(chosen@).take(chosen.len() as int) =~= texts(chosen@));
    models
}

/// The names of the models that the user has downloaded, given the names
/// of the files of the models directory; none where no directory is
/// configured.
pub fn downloaded_models(models_dir: Option<&str>, file_names: &Vec<String>) -> (models: Vec<
    String,
>)
    ensures
        models_dir is None ==> models@.len() == 0,
        models_dir is Some ==> strictly_sorted(models.deep_view()) && forall|s: Seq<char>| #[trigger]
            models.deep_view().contains(s) <==> (file_names.deep_view().contains(s)
                && is_model_name(s)),
{
    match models_dir {
        Some(_) => select_models(file_names),
        None => Vec::new(),
    }
}

} // verus!
