//! What holds of repository names, file selection and model profiles for
//! all inputs.

use vstd::prelude::*;

use crate::huggingface;
use crate::huggingface::RepoError;
use crate::text;
use crate::text_laws;

verus! {

// ---------------------------------------------------------------------------
// Facts about texts
// ---------------------------------------------------------------------------

/// A text without `c` is all of what stands before `c`.
pub proof fn lemma_up_to_absent(s: Seq<char>, c: char)
    requires
        forall|i: int| 0 <= i < s.len() ==> #[trigger] s[i] != c,
    ensures
        text::index_of(s, c) == s.len(),
        huggingface::up_to(s, c) == s,
{
    text::lemma_index_of(s, c);
    assert(s.take(s.len() as int) =~= s);
}

/// The position of the first `c` is the one before which there is none.
pub proof fn lemma_index_of_is(s: Seq<char>, c: char, i: int)
    requires
        0 <= i < s.len(),
        s[i] == c,
        forall|j: int| 0 <= j < i ==> #[trigger] s[j] != c,
    ensures
        text::index_of(s, c) == i,
{
    text::lemma_index_of(s, c);
    let k = text::index_of(s, c);
    if k < i {
        assert(s[k] != c);
    }
    if i < k {
        assert(s[i] != c);
    }
}

/// A text whose parts at `sep` are two has `sep` in one place.
proof fn lemma_two_parts(s: Seq<char>, sep: char)
    requires
        text::split_on(s, sep).len() == 2,
    ensures
        0 <= text::index_of(s, sep) < s.len(),
        s[text::index_of(s, sep)] == sep,
        forall|i: int|
            0 <= i < s.len() && i != text::index_of(s, sep) ==> #[trigger] s[i] != sep,
        text::split_on(s, sep)[0] == s.take(text::index_of(s, sep)),
        text::split_on(s, sep)[1] == s.skip(text::index_of(s, sep) + 1),
{
    text::lemma_index_of(s, sep);
    let i = text::index_of(s, sep);
    let rest = s.skip(i + 1);
    text::lemma_index_of(rest, sep);
    let parts = text::split_on(s, sep);
    assert(i < s.len());
    let tail = text::split_on(rest, sep);
    assert(parts == seq![s.take(i)] + tail);
    assert(tail.len() == 1);
    let k = text::index_of(rest, sep);
    if k < rest.len() {
        let after = rest.skip(k + 1);
        text::lemma_index_of(after, sep);
        assert(tail == seq![rest.take(k)] + text::split_on(after, sep));
        assert(text::split_on(after, sep).len() >= 1);
    }
    assert forall|j: int| 0 <= j < s.len() && j != i implies #[trigger] s[j] != sep by {
        if j > i {
            assert(s[j] == rest[j - i - 1]);
        }
    }
}

// ---------------------------------------------------------------------------
// Repository names
// ---------------------------------------------------------------------------

/// What a checked repository name looks like: one slash between two parts,
/// and only characters of repository names.
pub proof fn lemma_checked_repo(repo: Seq<char>)
    requires
        huggingface::check_repo(repo) is Ok,
    ensures
        0 < text::index_of(repo, '/') < repo.len() - 1,
        repo[text::index_of(repo, '/')] == '/',
        forall|i: int|
            0 <= i < repo.len() && i != text::index_of(repo, '/') ==> #[trigger] repo[i] != '/',
        forall|i: int| 0 <= i < repo.len() ==> huggingface::is_repo_char(#[trigger] repo[i]),
{
    lemma_two_parts(repo, '/');
    let parts = text::split_on(repo, '/');
    let i = text::index_of(repo, '/');
    if i == 0 {
        assert(parts[0].len() == 0);
    }
    if i == repo.len() - 1 {
        assert(parts[1].len() == 0);
    }
}

/// No text of two slashes with something between them stands in a checked
/// repository name.
proof fn lemma_no_marker(repo: Seq<char>, marker: Seq<char>)
    requires
        huggingface::check_repo(repo) is Ok,
        marker.len() >= 2,
        marker[0] == '/',
        marker.last() == '/',
    ensures
        text::find_text(repo, marker) is None,
{
    lemma_checked_repo(repo);
    if text::contains_text(repo, marker) {
        let i = choose|i: int| text::occurs_at(repo, marker, i);
        let sub = repo.subrange(i, i + marker.len());
        assert(sub[0] == repo[i]);
        assert(sub[marker.len() - 1] == repo[i + marker.len() - 1]);
    }
}

/// A checked repository name that is the whole path on the site is what is
/// read, with the file that was typed beside it.
proof fn lemma_read_bare(repo: Seq<char>, file: Option<Seq<char>>)
    requires
        huggingface::check_repo(repo) is Ok,
    ensures
        ({
            let t = huggingface::RepoText { repo, file };
            &&& huggingface::cut_links(t) == t
            &&& huggingface::cut_tree(t) == t
            &&& huggingface::cut_colon(t) == t
            &&& huggingface::cut_path(t) == t
            &&& text::trim_slashes(repo) == repo
            &&& text::trim(repo) == repo
        }),
{
    reveal_strlit("/resolve/");
    reveal_strlit("/blob/");
    reveal_strlit("/tree/");
    lemma_checked_repo(repo);
    lemma_no_marker(repo, "/resolve/"@);
    lemma_no_marker(repo, "/blob/"@);
    lemma_no_marker(repo, "/tree/"@);
    lemma_up_to_absent(repo, ':');
    assert(huggingface::is_repo_char(repo[0]));
    assert(huggingface::is_repo_char(repo[repo.len() - 1]));
    text::lemma_trim_keeps(repo, text::Cut::Only('/'));
    text::lemma_trim_keeps(repo, text::Cut::Space);
}

/// A repository name in `owner/model` form stands for itself, with no file.
pub proof fn plain_repo_name_is_kept(repo: Seq<char>)
    requires
        huggingface::check_repo(repo) is Ok,
    ensures
        huggingface::split_repo(repo, None) == Ok::<huggingface::RepoText, RepoError>(
            huggingface::RepoText { repo, file: None },
        ),
{
    lemma_checked_repo(repo);
    lemma_read_bare(repo, None);
    lemma_up_to_absent(repo, '?');
    lemma_up_to_absent(repo, '#');
    reveal_strlit("https://huggingface.co/");
    reveal_strlit("http://huggingface.co/");
    if text::starts_with(repo, "https://huggingface.co/"@) {
        let sub = repo.subrange(0, "https://huggingface.co/"@.len() as int);
        assert(sub[5] == repo[5]);
        assert(huggingface::is_repo_char(repo[5]));
    }
    if text::starts_with(repo, "http://huggingface.co/"@) {
        let sub = repo.subrange(0, "http://huggingface.co/"@.len() as int);
        assert(sub[4] == repo[4]);
        assert(huggingface::is_repo_char(repo[4]));
    }
    assert(huggingface::site_path(repo) == repo);
}

/// Whether a text can stand at the end of an address: it is not empty, holds
/// no query or fragment mark and has no slash or white space at its end.
pub open spec fn ends_address(s: Seq<char>) -> bool {
    &&& s.len() > 0
    &&& forall|i: int| 0 <= i < s.len() ==> (#[trigger] s[i]) != '?' && s[i] != '#'
    &&& s.last() != '/'
    &&& !text::is_white_space(s.last())
}

/// Where a text begins with the address of the site, its path is what stands
/// behind that address.
proof fn lemma_site_path_of_address(rest: Seq<char>)
    requires
        ends_address(rest),
        rest[0] != '/',
    ensures
        huggingface::site_path("https://huggingface.co/"@ + rest) == rest,
        text::trim("https://huggingface.co/"@ + rest).len() > 0,
{
    reveal_strlit("https://huggingface.co/");
    let site = "https://huggingface.co/"@;
    let all = site + rest;
    assert(all[0] == 'h');
    assert(all.last() == rest.last());
    text::lemma_trim_keeps(all, text::Cut::Space);
    text::lemma_trim_keeps(all, text::Cut::Only('/'));
    assert forall|i: int| 0 <= i < all.len() implies (#[trigger] all[i]) != '?' && all[i]
        != '#' by {
        if i >= site.len() {
            assert(all[i] == rest[i - site.len()]);
        }
    }
    lemma_up_to_absent(all, '?');
    lemma_up_to_absent(all, '#');
    assert(all.subrange(0, site.len() as int) =~= site);
    assert(all.skip(site.len() as int) =~= rest);
    text::lemma_trim_keeps(rest, text::Cut::Only('/'));
}

/// The address of a repository on the site stands for the repository.
pub proof fn repo_address_names_repo(repo: Seq<char>)
    requires
        huggingface::check_repo(repo) is Ok,
    ensures
        huggingface::split_repo("https://huggingface.co/"@ + repo, None) == Ok::<
            huggingface::RepoText,
            RepoError,
        >(huggingface::RepoText { repo, file: None }),
{
    lemma_checked_repo(repo);
    lemma_read_bare(repo, None);
    assert forall|i: int| 0 <= i < repo.len() implies (#[trigger] repo[i]) != '?' && repo[i]
        != '#' by {
        assert(huggingface::is_repo_char(repo[i]));
    }
    assert(huggingface::is_repo_char(repo.last()));
    lemma_site_path_of_address(repo);
}

/// In `owner/model/resolve/..` the mark stands behind the repository and
/// nowhere before, unless the model itself is called so.
proof fn lemma_first_mark(repo: Seq<char>, behind: Seq<char>)
    requires
        huggingface::check_repo(repo) is Ok,
        text::split_on(repo, '/')[1] != "resolve"@,
    ensures
        text::find_text(repo + "/resolve/"@ + behind, "/resolve/"@) == Some(repo.len() as int),
{
    reveal_strlit("/resolve/");
    reveal_strlit("resolve");
    let marker = "/resolve/"@;
    let path = repo + marker + behind;
    let len = repo.len() as int;
    lemma_checked_repo(repo);
    lemma_two_parts(repo, '/');
    assert(path.subrange(len, len + marker.len()) =~= marker);
    let slash = text::index_of(repo, '/');
    let model = repo.skip(slash + 1);
    assert forall|j: int| 0 <= j < len implies !#[trigger] text::occurs_at(path, marker, j) by {
        if text::occurs_at(path, marker, j) {
            let sub = path.subrange(j, j + 9);
            assert(sub =~= marker);
            assert(sub[0] == path[j] && path[j] == repo[j]);
            assert(j == slash);
            assert(sub[8] == path[j + 8]);
            assert(path[len] == marker[0]);
            // the slash behind the mark is the one that ends the repository
            if len < j + 8 {
                assert(sub[len - j] == path[len]);
                assert(marker[len - j] != '/');
            } else if len > j + 8 {
                assert(path[j + 8] == repo[j + 8]);
            }
            assert(model.len() == 7);
            assert forall|k: int| 0 <= k < 7 implies #[trigger] model[k] == "resolve"@[k] by {
                assert(model[k] == repo[j + 1 + k]);
                assert(sub[k + 1] == path[j + 1 + k]);
                assert(path[j + 1 + k] == repo[j + 1 + k]);
            }
            assert(model =~= "resolve"@);
        }
    }
    text::lemma_find_text(path, marker, len);
}

/// The file is read from behind the first slash of `revision/file`.
proof fn lemma_file_behind_revision(revision: Seq<char>, file: Seq<char>)
    requires
        forall|i: int| 0 <= i < revision.len() ==> #[trigger] revision[i] != '/',
        ends_address(file),
        file[0] != '/',
        !text::is_white_space(file[0]),
    ensures
        huggingface::file_after_revision(revision + "/"@ + file) == Some(file),
{
    reveal_strlit("/");
    let behind = revision + "/"@ + file;
    let n = revision.len() as int;
    assert(behind[n] == '/');
    assert forall|j: int| 0 <= j < n implies #[trigger] behind[j] != '/' by {
        assert(behind[j] == revision[j]);
    }
    lemma_index_of_is(behind, '/', n);
    assert(behind.skip(n + 1) =~= file);
    text::lemma_trim_keeps(file, text::Cut::Space);
    text::lemma_trim_keeps(file, text::Cut::Only('/'));
}

/// A path that ends in a file can stand at the end of an address.
proof fn lemma_path_ends_address(repo: Seq<char>, revision: Seq<char>, file: Seq<char>)
    requires
        huggingface::check_repo(repo) is Ok,
        forall|i: int|
            0 <= i < revision.len() ==> (#[trigger] revision[i]) != '?' && revision[i] != '#',
        ends_address(file),
    ensures
        ends_address(repo + "/resolve/"@ + (revision + "/"@ + file)),
        (repo + "/resolve/"@ + (revision + "/"@ + file))[0] != '/',
{
    reveal_strlit("/resolve/");
    reveal_strlit("/");
    let marker = "/resolve/"@;
    let behind = revision + "/"@ + file;
    let path = repo + marker + behind;
    lemma_checked_repo(repo);
    assert forall|i: int| 0 <= i < path.len() implies (#[trigger] path[i]) != '?' && path[i]
        != '#' by {
        if i < repo.len() {
            assert(path[i] == repo[i]);
            assert(huggingface::is_repo_char(repo[i]));
        } else if i < repo.len() + marker.len() {
            assert(path[i] == marker[i - repo.len()]);
        } else {
            let k = i - repo.len() - marker.len();
            assert(path[i] == behind[k]);
            if k < revision.len() {
                assert(behind[k] == revision[k]);
            } else if k > revision.len() {
                assert(behind[k] == file[k - revision.len() - 1]);
            }
        }
    }
    assert(path.last() == file.last());
    assert(path[0] == repo[0]);
}

/// The download address of a file, as the site gives it, stands for the
/// repository and the file. A model of the name `resolve` is the exception:
/// its own name is read as the mark before the revision.
pub proof fn download_address_names_repo_and_file(
    repo: Seq<char>,
    revision: Seq<char>,
    file: Seq<char>,
)
    requires
        huggingface::check_repo(repo) is Ok,
        text::split_on(repo, '/')[1] != "resolve"@,
        forall|i: int|
            0 <= i < revision.len() ==> (#[trigger] revision[i]) != '/' && revision[i] != '?'
                && revision[i] != '#',
        ends_address(file),
        file[0] != '/',
        !text::is_white_space(file[0]),
    ensures
        huggingface::split_repo(
            "https://huggingface.co/"@ + repo + "/resolve/"@ + revision + "/"@ + file,
            None,
        ) == Ok::<huggingface::RepoText, RepoError>(
            huggingface::RepoText { repo, file: Some(file) },
        ),
{
    let behind = revision + "/"@ + file;
    let path = repo + "/resolve/"@ + behind;
    assert("https://huggingface.co/"@ + repo + "/resolve/"@ + revision + "/"@ + file
        =~= "https://huggingface.co/"@ + path);
    lemma_path_ends_address(repo, revision, file);
    lemma_site_path_of_address(path);
    lemma_first_mark(repo, behind);
    assert(path.take(repo.len() as int) =~= repo);
    assert(path.skip(repo.len() as int + "/resolve/"@.len()) =~= behind);
    lemma_file_behind_revision(revision, file);
    lemma_read_bare(repo, Some(file));
    lemma_read_bare(repo, None);
}

/// A file name that is typed beside the repository is the one that counts,
/// whatever the repository text says.
pub proof fn typed_file_name_counts(typed: Seq<char>, file: Seq<char>)
    requires
        text::trim(file).len() > 0,
        huggingface::split_repo(typed, Some(file)) is Ok,
    ensures
        huggingface::split_repo(typed, Some(file))->Ok_0.file == Some(
            text::trim_leading_slashes(text::trim(file)),
        ),
{
}

/// What is accepted as a repository is in `owner/model` form.
pub proof fn accepted_repo_is_owner_and_model(typed: Seq<char>, file: Option<Seq<char>>)
    requires
        huggingface::split_repo(typed, file) is Ok,
    ensures
        huggingface::check_repo(huggingface::split_repo(typed, file)->Ok_0.repo) is Ok,
{
}

// ---------------------------------------------------------------------------
// Other ways to name a repository and a file
// ---------------------------------------------------------------------------

proof fn lemma_split_at(first: Seq<char>, sep: char, rest: Seq<char>)
    requires
        forall|i: int| 0 <= i < first.len() ==> #[trigger] first[i] != sep,
    ensures
        text::split_on(first + seq![sep] + rest, sep) == seq![first] + text::split_on(rest, sep),
{
    let s = first + seq![sep] + rest;
    let n = first.len() as int;
    assert(s[n] == sep);
    assert forall|j: int| 0 <= j < n implies #[trigger] s[j] != sep by {
        assert(s[j] == first[j]);
    }
    lemma_index_of_is(s, sep, n);
    assert(s.take(n) =~= first);
    assert(s.skip(n + 1) =~= rest);
}

proof fn lemma_unsplit(s: Seq<char>, sep: char)
    requires
        forall|i: int| 0 <= i < s.len() ==> #[trigger] s[i] != sep,
    ensures
        text::split_on(s, sep) == seq![s],
{
    text::lemma_index_of(s, sep);
}

/// A repository name is an owner and a model with one slash between them,
/// neither of them empty, of ASCII letters, digits, dashes, underscores and dots.
pub proof fn repo_name_is_owner_and_model(owner: Seq<char>, model: Seq<char>)
    requires
        forall|i: int| 0 <= i < owner.len() ==> #[trigger] owner[i] != '/',
        forall|i: int| 0 <= i < model.len() ==> #[trigger] model[i] != '/',
    ensures
        huggingface::check_repo(owner + seq!['/'] + model) is Ok <==> ({
            &&& owner.len() > 0
            &&& model.len() > 0
            &&& forall|i: int| 0 <= i < owner.len() ==> is_name_char(#[trigger] owner[i])
            &&& forall|i: int| 0 <= i < model.len() ==> is_name_char(#[trigger] model[i])
        }),
        text_laws::all_white(owner) || text_laws::all_white(model) ==> huggingface::check_repo(
            owner + seq!['/'] + model,
        ) == Err::<(), _>(RepoError::NotOwnerModel),
        !text_laws::all_white(owner) && !text_laws::all_white(model) ==> huggingface::check_repo(
            owner + seq!['/'] + model,
        ) is Ok || huggingface::check_repo(owner + seq!['/'] + model) == Err::<(), _>(
            RepoError::UnsupportedCharacters,
        ),
{
    let repo = owner + seq!['/'] + model;
    lemma_split_at(owner, '/', model);
    lemma_unsplit(model, '/');
    let parts = text::split_on(repo, '/');
    assert(parts =~= seq![owner, model]);
    text_laws::blank_is_white_space_alone(owner);
    text_laws::blank_is_white_space_alone(model);
    if huggingface::check_repo(repo) is Ok {
        assert forall|i: int| 0 <= i < owner.len() implies is_name_char(#[trigger] owner[i]) by {
            assert(repo[i] == owner[i]);
            assert(huggingface::is_repo_char(repo[i]));
        }
        assert forall|i: int| 0 <= i < model.len() implies is_name_char(#[trigger] model[i]) by {
            assert(repo[owner.len() + 1 + i] == model[i]);
            assert(huggingface::is_repo_char(repo[owner.len() + 1 + i]));
        }
    }
    if owner.len() > 0 && model.len() > 0 && (forall|i: int|
        0 <= i < owner.len() ==> is_name_char(#[trigger] owner[i])) && (forall|i: int|
        0 <= i < model.len() ==> is_name_char(#[trigger] model[i])) {
        assert(is_name_char(owner[0]) && is_name_char(model[0]));
        assert(!text::is_white_space(owner[0]) && !text::is_white_space(model[0]));
        assert forall|i: int| 0 <= i < repo.len() implies huggingface::is_repo_char(
            #[trigger] repo[i],
        ) by {
            if i < owner.len() {
                assert(repo[i] == owner[i]);
            } else if i > owner.len() {
                assert(repo[i] == model[i - owner.len() - 1]);
            }
        }
    }
}

/// The characters of the name of an owner or a model.
pub open spec fn is_name_char(c: char) -> bool {
    ||| 'a' <= c <= 'z'
    ||| 'A' <= c <= 'Z'
    ||| '0' <= c <= '9'
    ||| c == '-'
    ||| c == '_'
    ||| c == '.'
}

/// A text without a slash, or with more than one, is no repository name.
pub proof fn repo_name_has_one_slash(a: Seq<char>, b: Seq<char>, c: Seq<char>)
    requires
        forall|i: int| 0 <= i < a.len() ==> #[trigger] a[i] != '/',
        forall|i: int| 0 <= i < b.len() ==> #[trigger] b[i] != '/',
    ensures
        huggingface::check_repo(a) == Err::<(), _>(RepoError::NotOwnerModel),
        huggingface::check_repo(a + seq!['/'] + (b + seq!['/'] + c)) == Err::<(), _>(
            RepoError::NotOwnerModel,
        ),
{
    lemma_unsplit(a, '/');
    lemma_split_at(a, '/', b + seq!['/'] + c);
    lemma_split_at(b, '/', c);
    text_laws::split_parts_join_to_the_text(c, '/');
}

/// A blank text names no repository.
pub proof fn blank_text_names_no_repo(typed: Seq<char>, file: Option<Seq<char>>)
    requires
        text_laws::all_white(typed),
    ensures
        huggingface::split_repo(typed, file) == Err::<huggingface::RepoText, _>(RepoError::Empty),
{
    text_laws::blank_is_white_space_alone(typed);
}

/// A path that stands for itself: it starts as a repository name does, ends as a
/// file name does, and is no address.
proof fn lemma_site_path_of_plain(repo: Seq<char>, c: char, rest: Seq<char>)
    requires
        huggingface::check_repo(repo) is Ok,
        ends_address(rest),
        c == '/' || c == ':',
    ensures
        huggingface::site_path(repo + seq![c] + rest) == repo + seq![c] + rest,
        text::trim(repo + seq![c] + rest).len() > 0,
{
    let path = repo + seq![c] + rest;
    let n = repo.len() as int;
    lemma_checked_repo(repo);
    assert(path[0] == repo[0]);
    assert(huggingface::is_repo_char(repo[0]));
    assert(path.last() == rest.last());
    text::lemma_trim_keeps(path, text::Cut::Space);
    text::lemma_trim_keeps(path, text::Cut::Only('/'));
    assert forall|i: int| 0 <= i < path.len() implies (#[trigger] path[i]) != '?' && path[i]
        != '#' by {
        if i < n {
            assert(path[i] == repo[i]);
            assert(huggingface::is_repo_char(repo[i]));
        } else if i > n {
            assert(path[i] == rest[i - n - 1]);
        }
    }
    lemma_up_to_absent(path, '?');
    lemma_up_to_absent(path, '#');
    reveal_strlit("https://huggingface.co/");
    reveal_strlit("http://huggingface.co/");
    let slash = text::index_of(repo, '/');
    if text::starts_with(path, "https://huggingface.co/"@) {
        let sub = path.subrange(0, "https://huggingface.co/"@.len() as int);
        assert(sub =~= "https://huggingface.co/"@);
        assert(sub[5] == path[5] && path[5] == ':');
        if n > 5 {
            assert(path[5] == repo[5]);
            assert(huggingface::is_repo_char(repo[5]));
        }
        assert(path[slash] == repo[slash]);
        assert(sub[slash] == path[slash]);
        assert(slash < 5);
        assert("https://huggingface.co/"@[slash] != '/');
    }
    if text::starts_with(path, "http://huggingface.co/"@) {
        let sub = path.subrange(0, "http://huggingface.co/"@.len() as int);
        assert(sub =~= "http://huggingface.co/"@);
        assert(sub[4] == path[4] && path[4] == ':');
        if n > 4 {
            assert(path[4] == repo[4]);
            assert(huggingface::is_repo_char(repo[4]));
        }
        assert(path[slash] == repo[slash]);
        assert(sub[slash] == path[slash]);
        assert(slash < 4);
        assert("http://huggingface.co/"@[slash] != '/');
    }
}

/// Whether no link to a file or a directory of a repository stands in the path.
pub open spec fn has_no_link(path: Seq<char>) -> bool {
    &&& !text::contains_text(path, "/resolve/"@)
    &&& !text::contains_text(path, "/blob/"@)
    &&& !text::contains_text(path, "/tree/"@)
}

/// In `owner/model:file` the file stands behind the colon.
pub proof fn file_behind_a_colon_is_read(repo: Seq<char>, file: Seq<char>)
    requires
        huggingface::check_repo(repo) is Ok,
        ends_address(file),
        file[0] != '/',
        !text::is_white_space(file[0]),
        has_no_link(repo + seq![':'] + file),
    ensures
        huggingface::split_repo(repo + seq![':'] + file, None) == Ok::<
            huggingface::RepoText,
            RepoError,
        >(huggingface::RepoText { repo, file: Some(file) }),
{
    let path = repo + seq![':'] + file;
    let n = repo.len() as int;
    lemma_site_path_of_plain(repo, ':', file);
    lemma_checked_repo(repo);
    lemma_read_bare(repo, Some(file));
    assert forall|j: int| 0 <= j < n implies #[trigger] path[j] != ':' by {
        assert(path[j] == repo[j]);
        assert(huggingface::is_repo_char(repo[j]));
    }
    assert(path[n] == ':');
    lemma_index_of_is(path, ':', n);
    assert(path.take(n) =~= repo);
    assert(path.skip(n + 1) =~= file);
    text::lemma_trim_keeps(file, text::Cut::Space);
    text::lemma_trim_keeps(file, text::Cut::Only('/'));
    let t = huggingface::RepoText { repo: path, file: None };
    assert(huggingface::cut_links(t) == t);
    assert(huggingface::cut_tree(t) == t);
}

/// In `owner/model/file` the file stands behind the model, where it is the name
/// of a model file.
pub proof fn file_behind_the_model_is_read(repo: Seq<char>, file: Seq<char>)
    requires
        huggingface::check_repo(repo) is Ok,
        ends_address(file),
        huggingface::is_bin_name(file),
        forall|i: int| 0 <= i < file.len() ==> #[trigger] file[i] != ':',
        has_no_link(repo + seq!['/'] + file),
    ensures
        huggingface::split_repo(repo + seq!['/'] + file, None) == Ok::<
            huggingface::RepoText,
            RepoError,
        >(huggingface::RepoText { repo, file: Some(file) }),
{
    let path = repo + seq!['/'] + file;
    let n = repo.len() as int;
    lemma_site_path_of_plain(repo, '/', file);
    lemma_checked_repo(repo);
    lemma_read_bare(repo, Some(file));
    let t = huggingface::RepoText { repo: path, file: None };
    assert(huggingface::cut_links(t) == t);
    assert(huggingface::cut_tree(t) == t);
    assert forall|j: int| 0 <= j < path.len() implies #[trigger] path[j] != ':' by {
        if j < n {
            assert(path[j] == repo[j]);
            assert(huggingface::is_repo_char(repo[j]));
        } else if j > n {
            assert(path[j] == file[j - n - 1]);
        }
    }
    lemma_up_to_absent(path, ':');
    text::lemma_index_of(path, ':');
    assert(huggingface::cut_colon(t) == t);
    lemma_two_parts(repo, '/');
    let k = text::index_of(repo, '/');
    let owner = repo.take(k);
    let model = repo.skip(k + 1);
    assert forall|j: int| 0 <= j < model.len() implies #[trigger] model[j] != '/' by {
        assert(model[j] == repo[k + 1 + j]);
    }
    assert(path =~= owner + seq!['/'] + (model + seq!['/'] + file));
    lemma_split_at(owner, '/', model + seq!['/'] + file);
    lemma_split_at(model, '/', file);
    let tail = text::split_on(file, '/');
    let parts = text::split_on(path, '/');
    assert(parts =~= seq![owner, model] + tail);
    assert(parts.skip(2) =~= tail);
    text_laws::split_parts_join_to_the_text(file, '/');
    reveal_strlit("/");
    assert("/"@ =~= seq!['/']);
    assert(owner + "/"@ + model =~= repo);
}

proof fn lemma_first_mark_of(repo: Seq<char>, word: Seq<char>, behind: Seq<char>)
    requires
        huggingface::check_repo(repo) is Ok,
        text::split_on(repo, '/')[1] != word,
        forall|i: int| 0 <= i < word.len() ==> #[trigger] word[i] != '/',
    ensures
        ({
            let marker = seq!['/'] + word + seq!['/'];
            text::find_text(repo + marker + behind, marker) == Some(repo.len() as int)
        }),
{
    let marker = seq!['/'] + word + seq!['/'];
    let path = repo + marker + behind;
    let len = repo.len() as int;
    let w = word.len() as int;
    lemma_checked_repo(repo);
    lemma_two_parts(repo, '/');
    assert(path.subrange(len, len + marker.len()) =~= marker);
    let slash = text::index_of(repo, '/');
    let model = repo.skip(slash + 1);
    assert forall|j: int| 0 <= j < len implies !#[trigger] text::occurs_at(path, marker, j) by {
        if text::occurs_at(path, marker, j) {
            let sub = path.subrange(j, j + w + 2);
            assert(sub =~= marker);
            assert(sub[0] == path[j] && path[j] == repo[j]);
            assert(j == slash);
            assert(sub[w + 1] == path[j + w + 1]);
            assert(path[len] == marker[0]);
            if len < j + w + 1 {
                assert(sub[len - j] == path[len]);
                assert(marker[len - j] == word[len - j - 1]);
            } else if len > j + w + 1 {
                assert(path[j + w + 1] == repo[j + w + 1]);
            }
            assert(model.len() == w);
            assert forall|k: int| 0 <= k < w implies #[trigger] model[k] == word[k] by {
                assert(model[k] == repo[j + 1 + k]);
                assert(sub[k + 1] == path[j + 1 + k]);
                assert(path[j + 1 + k] == repo[j + 1 + k]);
                assert(marker[k + 1] == word[k]);
            }
            assert(model =~= word);
        }
    }
    text::lemma_find_text(path, marker, len);
}

/// In `owner/model/blob/revision/file` the file stands behind the revision. A
/// model of the name `blob` is the exception.
pub proof fn page_of_a_file_names_repo_and_file(
    repo: Seq<char>,
    revision: Seq<char>,
    file: Seq<char>,
)
    requires
        huggingface::check_repo(repo) is Ok,
        text::split_on(repo, '/')[1] != "blob"@,
        forall|i: int|
            0 <= i < revision.len() ==> (#[trigger] revision[i]) != '/' && revision[i] != '?'
                && revision[i] != '#',
        ends_address(file),
        file[0] != '/',
        !text::is_white_space(file[0]),
        !text::contains_text(repo + "/blob/"@ + (revision + "/"@ + file), "/resolve/"@),
    ensures
        huggingface::split_repo(repo + "/blob/"@ + (revision + "/"@ + file), None) == Ok::<
            huggingface::RepoText,
            RepoError,
        >(huggingface::RepoText { repo, file: Some(file) }),
{
    reveal_strlit("/blob/");
    reveal_strlit("blob");
    reveal_strlit("/");
    let behind = revision + "/"@ + file;
    let path = repo + "/blob/"@ + behind;
    let n = repo.len() as int;
    assert("/blob/"@ =~= seq!['/'] + "blob"@ + seq!['/']);
    lemma_first_mark_of(repo, "blob"@, behind);
    let rest = seq!['b', 'l', 'o', 'b', '/'] + behind;
    assert(path =~= repo + seq!['/'] + rest);
    assert(rest.last() == file.last());
    assert forall|i: int| 0 <= i < rest.len() implies (#[trigger] rest[i]) != '?' && rest[i]
        != '#' by {
        if i >= 5 {
            assert(rest[i] == behind[i - 5]);
            if i - 5 < revision.len() {
                assert(behind[i - 5] == revision[i - 5]);
            } else if i - 5 > revision.len() {
                assert(behind[i - 5] == file[i - 5 - revision.len() - 1]);
            }
        }
    }
    lemma_site_path_of_plain(repo, '/', rest);
    assert(path.take(n) =~= repo);
    assert(path.skip(n + "/blob/"@.len()) =~= behind);
    lemma_file_behind_revision(revision, file);
    lemma_read_bare(repo, Some(file));
    lemma_read_bare(repo, None);
}

/// In `owner/model/tree/..` only the repository is named. A model of the name
/// `tree` is the exception.
pub proof fn page_of_a_directory_names_the_repo(repo: Seq<char>, behind: Seq<char>)
    requires
        huggingface::check_repo(repo) is Ok,
        text::split_on(repo, '/')[1] != "tree"@,
        ends_address(behind),
        !text::contains_text(repo + "/tree/"@ + behind, "/resolve/"@),
        !text::contains_text(repo + "/tree/"@ + behind, "/blob/"@),
    ensures
        huggingface::split_repo(repo + "/tree/"@ + behind, None) == Ok::<
            huggingface::RepoText,
            RepoError,
        >(huggingface::RepoText { repo, file: None }),
{
    reveal_strlit("/tree/");
    reveal_strlit("tree");
    let path = repo + "/tree/"@ + behind;
    let n = repo.len() as int;
    assert("/tree/"@ =~= seq!['/'] + "tree"@ + seq!['/']);
    lemma_first_mark_of(repo, "tree"@, behind);
    let rest = seq!['t', 'r', 'e', 'e', '/'] + behind;
    assert(path =~= repo + seq!['/'] + rest);
    assert(rest.last() == behind.last());
    assert forall|i: int| 0 <= i < rest.len() implies (#[trigger] rest[i]) != '?' && rest[i]
        != '#' by {
        if i >= 5 {
            assert(rest[i] == behind[i - 5]);
        }
    }
    lemma_site_path_of_plain(repo, '/', rest);
    assert(path.take(n) =~= repo);
    lemma_read_bare(repo, None);
    let t = huggingface::RepoText { repo: path, file: None };
    assert(huggingface::cut_links(t) == t);
}

/// What stands behind a question mark or a number sign does not matter.
pub proof fn query_and_fragment_do_not_matter(repo: Seq<char>, mark: char, query: Seq<char>)
    requires
        huggingface::check_repo(repo) is Ok,
        mark == '?' || mark == '#',
        query.len() > 0 ==> !text::is_white_space(query.last()),
    ensures
        huggingface::split_repo(repo + seq![mark] + query, None) == huggingface::split_repo(
            repo,
            None,
        ),
{
    let typed = repo + seq![mark] + query;
    let n = repo.len() as int;
    lemma_checked_repo(repo);
    assert(typed[0] == repo[0]);
    assert(huggingface::is_repo_char(repo[0]));
    if query.len() > 0 {
        assert(typed.last() == query.last());
    }
    text::lemma_trim_keeps(typed, text::Cut::Space);
    assert forall|j: int| 0 <= j < n implies (#[trigger] repo[j]) != '?' && repo[j] != '#' by {
        assert(huggingface::is_repo_char(repo[j]));
    }
    assert forall|j: int| 0 <= j < n implies (#[trigger] typed[j]) != '?' && typed[j] != '#' by {
        assert(typed[j] == repo[j]);
    }
    assert(typed[n] == mark);
    plain_repo_name_is_kept(repo);
    lemma_read_bare(repo, None);
    lemma_up_to_absent(repo, '?');
    lemma_up_to_absent(repo, '#');
    if mark == '?' {
        lemma_index_of_is(typed, '?', n);
        assert(huggingface::up_to(typed, '?') =~= repo);
    } else {
        let cut = huggingface::up_to(typed, '?');
        text::lemma_index_of(typed, '?');
        let k = text::index_of(typed, '?');
        assert(k > n) by {
            if k < n {
                assert(typed[k] != '?');
            }
        }
        assert(cut[n] == '#');
        assert forall|j: int| 0 <= j < n implies #[trigger] cut[j] != '#' by {
            assert(cut[j] == typed[j]);
        }
        lemma_index_of_is(cut, '#', n);
        assert(huggingface::up_to(cut, '#') =~= repo);
    }
    assert(huggingface::site_path(typed) == huggingface::site_path(repo));
}

// ---------------------------------------------------------------------------
// File selection
// ---------------------------------------------------------------------------

proof fn lemma_bin_names_are_bin(names: Seq<Seq<char>>, name: Seq<char>)
    requires
        huggingface::bin_names(names).contains(name),
    ensures
        names.contains(name),
        huggingface::is_bin_name(name),
    decreases names.len(),
{
    let bins = huggingface::bin_names(names);
    let i = choose|i: int| 0 <= i < bins.len() && bins[i] == name;
    let before = huggingface::bin_names(names.drop_last());
    if i < before.len() {
        assert(before[i] == name);
        assert(before.contains(name));
        lemma_bin_names_are_bin(names.drop_last(), name);
        let k = choose|k: int|
            0 <= k < names.drop_last().len() && names.drop_last()[k] == name;
        assert(names[k] == name);
    } else {
        assert(names[names.len() - 1] == name);
    }
}

/// Whatever file is chosen, it is a file of the repository whose name ends
/// in `.bin`.
pub proof fn chosen_file_is_a_model_file(
    names: Seq<Seq<char>>,
    requested: Option<Seq<char>>,
    chosen: Seq<char>,
)
    requires
        huggingface::selects(names, requested, Ok(chosen)),
    ensures
        names.contains(chosen),
        huggingface::is_bin_name(chosen),
{
    lemma_bin_names_are_bin(names, chosen);
}

/// A name of a GGML file scores between 100 and 190 and any other between 0 and
/// 90, so that it is preferred to every other whatever sizes they name.
pub proof fn ggml_names_come_first(a: Seq<char>, b: Seq<char>)
    requires
        text::contains_text(text::lowercase(a), "ggml"@),
        !text::contains_text(text::lowercase(b), "ggml"@),
    ensures
        100 <= huggingface::file_score(a) <= 190,
        0 <= huggingface::file_score(b) <= 90,
        huggingface::is_preferred(a, b),
{
}

proof fn lemma_ascii_but_for_capitals(a: Seq<char>, b: Seq<char>)
    requires
        vstd::utf8::is_ascii_chars(a),
        text::same_but_for_capitals(a, b),
    ensures
        vstd::utf8::is_ascii_chars(b),
{
    assert(text::ascii_lower_seq(a).len() == text::ascii_lower_seq(b).len());
    assert forall|i: int| 0 <= i < b.len() implies '\0' <= #[trigger] b[i] <= '\u{7f}' by {
        assert(text::ascii_lower_seq(a)[i] == text::ascii_lower(a[i]));
        assert(text::ascii_lower_seq(b)[i] == text::ascii_lower(b[i]));
        assert(a[i] <= '\u{7f}');
    }
}

/// ASCII capitals do not matter for the score of a name.
pub proof fn score_ignores_capitals(a: Seq<char>, b: Seq<char>)
    requires
        text::same_but_for_capitals(a, b),
    ensures
        huggingface::file_score(a) == huggingface::file_score(b),
{
    if vstd::utf8::is_ascii_chars(a) {
        lemma_ascii_but_for_capitals(a, b);
    }
    if vstd::utf8::is_ascii_chars(b) {
        lemma_ascii_but_for_capitals(b, a);
    }
}

/// A name in ASCII capitals scores as the name does.
pub proof fn upper_case_scores_the_same(name: Seq<char>)
    ensures
        huggingface::file_score(text::ascii_upper_seq(name)) == huggingface::file_score(name),
{
    text::upper_case_is_the_same_but_for_capitals(name);
    score_ignores_capitals(text::ascii_upper_seq(name), name);
}

// ---------------------------------------------------------------------------
// Identifiers, paths and addresses
// ---------------------------------------------------------------------------

/// Whether `s` holds ASCII letters, digits and dashes only, and no two dashes
/// stand side by side.
pub open spec fn is_dashed(s: Seq<char>) -> bool {
    &&& forall|i: int|
        0 <= i < s.len() ==> text::is_alphanumeric(#[trigger] s[i]) || s[i] == '-'
    &&& forall|i: int, j: int|
        0 <= i && j == i + 1 && j < s.len() ==> !((#[trigger] s[i]) == '-' && (#[trigger] s[j])
            == '-')
}

proof fn lemma_dash_runs(s: Seq<char>)
    ensures
        is_dashed(huggingface::dash_runs(s)),
        s.len() > 0 ==> huggingface::dash_runs(s).len() > 0,
        s.len() > 0 ==> (huggingface::dash_runs(s).last() == '-' <==> !text::is_alphanumeric(
            s.last(),
        )),
    decreases s.len(),
{
    if s.len() > 0 {
        lemma_dash_runs(s.drop_last());
        if s.len() > 1 {
            assert(s.drop_last().last() == s[s.len() - 2]);
        }
    }
}

proof fn lemma_trim_start_dashed(s: Seq<char>)
    requires
        is_dashed(s),
    ensures
        is_dashed(text::trim_start_by(s, text::Cut::Only('-'))),
        ({
            let t = text::trim_start_by(s, text::Cut::Only('-'));
            t.len() > 0 ==> t[0] != '-'
        }),
    decreases s.len(),
{
    if s.len() > 0 && s[0] == '-' {
        assert forall|i: int, j: int|
            0 <= i && j == i + 1 && j < s.drop_first().len() implies !((
        #[trigger] s.drop_first()[i]) == '-' && (#[trigger] s.drop_first()[j]) == '-') by {
            assert(s.drop_first()[i] == s[i + 1] && s.drop_first()[j] == s[j + 1]);
        }
        lemma_trim_start_dashed(s.drop_first());
    }
}

proof fn lemma_trim_end_dashed(s: Seq<char>)
    requires
        is_dashed(s),
        s.len() > 0 ==> s[0] != '-',
    ensures
        is_dashed(text::trim_end_by(s, text::Cut::Only('-'))),
        ({
            let t = text::trim_end_by(s, text::Cut::Only('-'));
            t.len() > 0 ==> t[0] != '-' && t.last() != '-'
        }),
    decreases s.len(),
{
    if s.len() > 0 && s.last() == '-' {
        lemma_trim_end_dashed(s.drop_last());
    }
}

/// An identifier holds ASCII letters, digits and single dashes only, and has
/// no dash at its ends.
pub proof fn identifier_is_dashed(value: Seq<char>)
    ensures
        is_dashed(huggingface::identifier_of(value)),
        huggingface::identifier_of(value).len() > 0 ==> huggingface::identifier_of(value)[0]
            != '-' && huggingface::identifier_of(value).last() != '-',
{
    lemma_dash_runs(huggingface::lower_chars(value));
    let runs = huggingface::dash_runs(huggingface::lower_chars(value));
    lemma_trim_start_dashed(runs);
    lemma_trim_end_dashed(text::trim_start_by(runs, text::Cut::Only('-')));
}

/// ASCII capitals do not matter for an identifier.
pub proof fn identifier_ignores_capitals(a: Seq<char>, b: Seq<char>)
    requires
        text::same_but_for_capitals(a, b),
    ensures
        huggingface::identifier_of(a) == huggingface::identifier_of(b),
{
    lemma_lower_chars_ignore_capitals(a, b);
}

/// A text in ASCII capitals has the identifier of the text.
pub proof fn upper_case_has_the_same_identifier(value: Seq<char>)
    ensures
        huggingface::identifier_of(text::ascii_upper_seq(value)) == huggingface::identifier_of(
            value,
        ),
{
    text::upper_case_is_the_same_but_for_capitals(value);
    identifier_ignores_capitals(text::ascii_upper_seq(value), value);
}

proof fn lemma_lower_chars_ignore_capitals(a: Seq<char>, b: Seq<char>)
    requires
        text::same_but_for_capitals(a, b),
    ensures
        huggingface::lower_chars(a) == huggingface::lower_chars(b),
    decreases a.len(),
{
    let la = text::ascii_lower_seq(a);
    let lb = text::ascii_lower_seq(b);
    assert(la.len() == a.len() && lb.len() == b.len());
    if a.len() > 0 {
        assert(text::ascii_lower_seq(a.drop_last()) =~= la.drop_last());
        assert(text::ascii_lower_seq(b.drop_last()) =~= lb.drop_last());
        lemma_lower_chars_ignore_capitals(a.drop_last(), b.drop_last());
        assert(la.last() == text::ascii_lower(a.last()));
        assert(lb.last() == text::ascii_lower(b.last()));
        assert(text::char_lowercase(a.last()) == text::char_lowercase(b.last()));
    }
}

proof fn lemma_lower_chars_no_capitals(s: Seq<char>)
    ensures
        text::has_no_capitals(huggingface::lower_chars(s)),
    decreases s.len(),
{
    if s.len() > 0 {
        lemma_lower_chars_no_capitals(s.drop_last());
    }
}

proof fn lemma_small_ascii_stays(s: Seq<char>)
    requires
        vstd::utf8::is_ascii_chars(s),
        text::has_no_capitals(s),
    ensures
        huggingface::lower_chars(s) == s,
    decreases s.len(),
{
    if s.len() > 0 {
        assert forall|i: int| 0 <= i < s.drop_last().len() implies '\0'
            <= #[trigger] s.drop_last()[i] <= '\u{7f}' by {
            assert(s.drop_last()[i] == s[i]);
        }
        assert(text::has_no_capitals(s.drop_last()));
        lemma_small_ascii_stays(s.drop_last());
        assert(s[s.len() - 1] <= '\u{7f}');
    }
    assert(huggingface::lower_chars(s) =~= s);
}

proof fn lemma_dash_runs_no_capitals(s: Seq<char>)
    requires
        text::has_no_capitals(s),
    ensures
        text::has_no_capitals(huggingface::dash_runs(s)),
    decreases s.len(),
{
    if s.len() > 0 {
        assert(text::has_no_capitals(s.drop_last()));
        lemma_dash_runs_no_capitals(s.drop_last());
        assert(s[s.len() - 1] == s.last());
    }
}

proof fn lemma_trim_no_capitals(s: Seq<char>)
    requires
        text::has_no_capitals(s),
    ensures
        text::has_no_capitals(text::trim_by(s, text::Cut::Only('-'))),
{
    lemma_trim_start_no_capitals(s);
    lemma_trim_end_no_capitals(text::trim_start_by(s, text::Cut::Only('-')));
}

proof fn lemma_trim_start_no_capitals(s: Seq<char>)
    requires
        text::has_no_capitals(s),
    ensures
        text::has_no_capitals(text::trim_start_by(s, text::Cut::Only('-'))),
    decreases s.len(),
{
    if s.len() > 0 && s[0] == '-' {
        assert(text::has_no_capitals(s.drop_first()));
        lemma_trim_start_no_capitals(s.drop_first());
    }
}

proof fn lemma_trim_end_no_capitals(s: Seq<char>)
    requires
        text::has_no_capitals(s),
    ensures
        text::has_no_capitals(text::trim_end_by(s, text::Cut::Only('-'))),
    decreases s.len(),
{
    if s.len() > 0 && s.last() == '-' {
        assert(text::has_no_capitals(s.drop_last()));
        lemma_trim_end_no_capitals(s.drop_last());
    }
}

proof fn lemma_dashed_stays(s: Seq<char>)
    requires
        is_dashed(s),
    ensures
        huggingface::dash_runs(s) == s,
    decreases s.len(),
{
    if s.len() > 0 {
        assert(is_dashed(s.drop_last()));
        lemma_dashed_stays(s.drop_last());
        if s.len() > 1 {
            assert(!(s[s.len() - 2] == '-' && s[s.len() - 1] == '-'));
        }
        assert(s.drop_last().push(s.last()) =~= s);
    }
    assert(huggingface::dash_runs(s) =~= s);
}

/// Making an identifier of an identifier changes nothing.
pub proof fn identifier_is_kept(value: Seq<char>)
    ensures
        huggingface::identifier_of(huggingface::identifier_of(value)) == huggingface::identifier_of(
            value,
        ),
{
    let runs = huggingface::dash_runs(huggingface::lower_chars(value));
    let made = huggingface::identifier_of(value);
    identifier_is_dashed(value);
    lemma_lower_chars_no_capitals(value);
    lemma_dash_runs_no_capitals(huggingface::lower_chars(value));
    lemma_trim_no_capitals(runs);
    assert forall|i: int| 0 <= i < made.len() implies '\0' <= #[trigger] made[i] <= '\u{7f}' by {
        assert(text::is_alphanumeric(made[i]) || made[i] == '-');
    }
    lemma_small_ascii_stays(made);
    lemma_dashed_stays(made);
    text::trimming_twice_is_trimming(runs, text::Cut::Only('-'));
}

/// A stored model file lies directly in the directory of the models: behind
/// that directory its path holds no slash.
pub proof fn model_path_stays_in_its_directory(
    repo: Seq<char>,
    file: Seq<char>,
    id: Option<Seq<char>>,
    name: Option<Seq<char>>,
)
    ensures
        ({
            let path = huggingface::hf_profile(repo, file, id, name).path;
            let dir = "/models/"@;
            &&& text::starts_with(path, dir)
            &&& forall|i: int|
                dir.len() <= i < path.len() ==> huggingface::is_file_char(#[trigger] path[i])
        }),
{
    reveal_strlit("-");
    let dir = "/models/"@;
    let ident = huggingface::identifier_of(repo);
    let base = huggingface::file_name_of(huggingface::base_name(file));
    let path = dir + ident + "-"@ + base;
    identifier_is_dashed(repo);
    assert(path.subrange(0, dir.len() as int) =~= dir);
    assert forall|i: int| dir.len() <= i < path.len() implies huggingface::is_file_char(
        #[trigger] path[i],
    ) by {
        let k = i - dir.len();
        if k < ident.len() {
            assert(path[i] == ident[k]);
        } else if k > ident.len() {
            assert(path[i] == base[k - ident.len() - 1]);
        } else {
            assert(path[i] == "-"@[0]);
        }
    }
}

proof fn lemma_percent_encoded_front(bytes: Seq<u8>)
    requires
        bytes.len() > 0,
    ensures
        huggingface::percent_encoded(bytes) == huggingface::encode_byte(bytes[0])
            + huggingface::percent_encoded(bytes.drop_first()),
    decreases bytes.len(),
{
    if bytes.len() > 1 {
        lemma_percent_encoded_front(bytes.drop_last());
        assert(bytes.drop_last().drop_first() =~= bytes.drop_first().drop_last());
        assert(huggingface::percent_encoded(bytes) =~= huggingface::encode_byte(bytes[0])
            + huggingface::percent_encoded(bytes.drop_first()));
    } else {
        assert(bytes.drop_last() =~= Seq::<u8>::empty());
        assert(bytes.drop_first() =~= Seq::<u8>::empty());
        assert(huggingface::percent_encoded(Seq::<u8>::empty()) =~= Seq::<char>::empty());
        assert(bytes.last() == bytes[0]);
        assert(huggingface::percent_encoded(bytes) =~= huggingface::encode_byte(bytes[0]));
    }
}

proof fn lemma_hex_digit_injective(a: u8, b: u8)
    requires
        a < 16,
        b < 16,
        huggingface::hex_digit(a) == huggingface::hex_digit(b),
    ensures
        a == b,
{
}

proof fn lemma_first_byte(a: u8, b: u8, ra: Seq<char>, rb: Seq<char>)
    requires
        huggingface::encode_byte(a) + ra == huggingface::encode_byte(b) + rb,
    ensures
        a == b,
        ra == rb,
{
    let ea = huggingface::encode_byte(a);
    let eb = huggingface::encode_byte(b);
    let all = ea + ra;
    assert(ea[0] == all[0] && eb[0] == all[0]);
    assert(ea.len() == eb.len());
    if ea.len() == 3 {
        assert(ea[1] == all[1] && eb[1] == all[1]);
        assert(ea[2] == all[2] && eb[2] == all[2]);
        lemma_hex_digit_injective((a / 16) as u8, (b / 16) as u8);
        lemma_hex_digit_injective((a % 16) as u8, (b % 16) as u8);
    }
    assert(ra =~= all.skip(ea.len() as int));
    assert(rb =~= all.skip(eb.len() as int));
}

/// Two byte strings that stand alike in an address are the same.
pub proof fn percent_encoding_is_injective(a: Seq<u8>, b: Seq<u8>)
    requires
        huggingface::percent_encoded(a) == huggingface::percent_encoded(b),
    ensures
        a == b,
    decreases a.len(),
{
    if a.len() > 0 {
        lemma_percent_encoded_front(a);
        assert(huggingface::encode_byte(a[0]).len() > 0);
    }
    if b.len() > 0 {
        lemma_percent_encoded_front(b);
        assert(huggingface::encode_byte(b[0]).len() > 0);
    }
    if a.len() > 0 && b.len() > 0 {
        lemma_first_byte(
            a[0],
            b[0],
            huggingface::percent_encoded(a.drop_first()),
            huggingface::percent_encoded(b.drop_first()),
        );
        percent_encoding_is_injective(a.drop_first(), b.drop_first());
        assert(a =~= seq![a[0]] + a.drop_first());
        assert(b =~= seq![b[0]] + b.drop_first());
    } else {
        assert(huggingface::percent_encoded(Seq::<u8>::empty()).len() == 0);
        assert(a.len() == 0 ==> a =~= Seq::<u8>::empty());
        assert(b.len() == 0 ==> b =~= Seq::<u8>::empty());
    }
}

/// Two path parts that stand alike in an address are the same text.
pub proof fn encoded_part_names_one_text(a: Seq<char>, b: Seq<char>)
    requires
        huggingface::percent_encoded(vstd::utf8::encode_utf8(a))
            == huggingface::percent_encoded(vstd::utf8::encode_utf8(b)),
    ensures
        a == b,
{
    percent_encoding_is_injective(vstd::utf8::encode_utf8(a), vstd::utf8::encode_utf8(b));
    vstd::utf8::encode_utf8_decode_utf8(a);
    vstd::utf8::encode_utf8_decode_utf8(b);
}

/// Whether `c` can stand in the path of an address as it is.
pub open spec fn is_address_char(c: char) -> bool {
    text::is_alphanumeric(c) || c == '-' || c == '_' || c == '.' || c == '~' || c == '%'
}

/// An encoded path part holds no character that means something else in an
/// address.
pub proof fn encoded_part_is_plain(bytes: Seq<u8>)
    ensures
        forall|i: int|
            0 <= i < huggingface::percent_encoded(bytes).len() ==> is_address_char(
                #[trigger] huggingface::percent_encoded(bytes)[i],
            ),
    decreases bytes.len(),
{
    if bytes.len() > 0 {
        encoded_part_is_plain(bytes.drop_last());
        let before = huggingface::percent_encoded(bytes.drop_last());
        let last = huggingface::encode_byte(bytes.last());
        assert forall|i: int|
            0 <= i < huggingface::percent_encoded(bytes).len() implies is_address_char(
            #[trigger] huggingface::percent_encoded(bytes)[i],
        ) by {
            if i < before.len() {
                assert(huggingface::percent_encoded(bytes)[i] == before[i]);
            } else {
                assert(huggingface::percent_encoded(bytes)[i] == last[i - before.len()]);
            }
        }
    }
}

// ---------------------------------------------------------------------------
// What is chosen, and what it is called
// ---------------------------------------------------------------------------

/// The model files of a repository are those whose names end in `.bin`, in any
/// case, in their order.
pub proof fn model_files_end_in_bin(names: Seq<Seq<char>>)
    ensures
        huggingface::bin_names(names) == names.filter(
            |n: Seq<char>| text::ends_with(text::lowercase(n), ".bin"@),
        ),
    decreases names.len(),
{
    reveal(Seq::filter);
    if names.len() > 0 {
        model_files_end_in_bin(names.drop_last());
    }
    assert(huggingface::bin_names(names) =~= names.filter(
        |n: Seq<char>| text::ends_with(text::lowercase(n), ".bin"@),
    ));
}

/// A file that is asked for, with or without slashes before it, is chosen exactly
/// where it is a model file of the repository; else its name and the names that
/// there are are told.
pub proof fn asked_file_is_chosen(
    names: Seq<Seq<char>>,
    left: Seq<char>,
    slashes: Seq<char>,
    file: Seq<char>,
    right: Seq<char>,
    r: Result<Seq<char>, huggingface::SelectErrorView>,
)
    requires
        text_laws::all_white(left),
        text_laws::all_white(right),
        text_laws::all_of(slashes, '/'),
        file.len() > 0,
        file[0] != '/',
        !text::is_white_space(file[0]),
        !text::is_white_space(file.last()),
        huggingface::selects(names, Some(left + (slashes + file) + right), r),
    ensures
        ({
            let models = names.filter(
                |n: Seq<char>| text::ends_with(text::lowercase(n), ".bin"@),
            );
            &&& models.contains(file) ==> r == Ok::<Seq<char>, huggingface::SelectErrorView>(file)
            &&& !models.contains(file) ==> r == Err::<Seq<char>, huggingface::SelectErrorView>(
                huggingface::SelectErrorView::NotFound {
                    requested: file,
                    available: huggingface::candidate_summary(models),
                },
            )
        }),
{
    let middle = slashes + file;
    assert(middle.last() == file.last());
    assert(!text::is_white_space(middle[0])) by {
        if slashes.len() > 0 {
            assert(middle[0] == slashes[0]);
        } else {
            assert(middle[0] == file[0]);
        }
    }
    text_laws::trimming_takes_outer_white_space(left, middle, right);
    text_laws::trimming_takes_leading_slashes(slashes, file);
    model_files_end_in_bin(names);
}

/// Where no file is asked for, one of the model files is chosen: no other scores
/// higher, and none that scores as high comes before it by name. Where there is
/// none, that is told.
pub proof fn best_file_is_chosen(
    names: Seq<Seq<char>>,
    requested: Option<Seq<char>>,
    r: Result<Seq<char>, huggingface::SelectErrorView>,
)
    requires
        requested matches Some(file) ==> text_laws::all_white(file),
        huggingface::selects(names, requested, r),
    ensures
        ({
            let models = names.filter(
                |n: Seq<char>| text::ends_with(text::lowercase(n), ".bin"@),
            );
            &&& models.len() == 0 ==> r == Err::<Seq<char>, huggingface::SelectErrorView>(
                huggingface::SelectErrorView::NoModelFile,
            )
            &&& models.len() > 0 ==> r is Ok && models.contains(r->Ok_0) && forall|i: int|
                0 <= i < models.len() ==> {
                    let other = #[trigger] models[i];
                    let a = huggingface::file_score(other);
                    let b = huggingface::file_score(r->Ok_0);
                    a < b || a == b && !text::text_before(other, r->Ok_0)
                }
        }),
{
    if let Some(file) = requested {
        text_laws::blank_is_white_space_alone(file);
    }
    model_files_end_in_bin(names);
}

/// The place of the first of the words for sizes, from the greatest down, that
/// the name holds; 7 where it holds none.
pub open spec fn size_place(name: Seq<char>) -> int {
    let low = text::lowercase(name);
    if text::contains_text(low, "large-v3"@) {
        0
    } else if text::contains_text(low, "large-v2"@) {
        1
    } else if text::contains_text(low, "large"@) {
        2
    } else if text::contains_text(low, "medium"@) {
        3
    } else if text::contains_text(low, "small"@) {
        4
    } else if text::contains_text(low, "base"@) {
        5
    } else if text::contains_text(low, "tiny"@) {
        6
    } else {
        7
    }
}

/// Of two names that are both of GGML files, or both not, the one with the
/// greater size scores higher, and two with the same size score the same.
pub proof fn greater_sizes_score_higher(a: Seq<char>, b: Seq<char>)
    requires
        text::contains_text(text::lowercase(a), "ggml"@) == text::contains_text(
            text::lowercase(b),
            "ggml"@,
        ),
    ensures
        size_place(a) < size_place(b) ==> huggingface::file_score(a) > huggingface::file_score(b),
        size_place(a) == size_place(b) ==> huggingface::file_score(a) == huggingface::file_score(b),
{
}

/// Up to eight names are told all, and of more the first eight.
pub proof fn first_names_are_told(names: Seq<Seq<char>>)
    ensures
        names.len() == 0 ==> huggingface::candidate_summary(names) == "none"@,
        0 < names.len() <= 8 ==> huggingface::candidate_summary(names) == text::join(names, ", "@),
        names.len() > 8 ==> huggingface::candidate_summary(names) == text::join(
            names.take(8),
            ", "@,
        ) + ", ..."@,
{
}

/// A stored file name has a character for each of the file: letters, digits,
/// dashes, underscores and dots as they are, and a dash for anything else.
pub proof fn stored_name_keeps_plain_characters(value: Seq<char>)
    ensures
        huggingface::file_name_of(value).len() == value.len(),
        forall|i: int|
            0 <= i < value.len() ==> (#[trigger] huggingface::file_name_of(value)[i]) == (
            if is_name_char(value[i]) {
                value[i]
            } else {
                '-'
            }),
{
}

proof fn lemma_lower_chars_joined(a: Seq<char>, b: Seq<char>)
    ensures
        huggingface::lower_chars(a + b) == huggingface::lower_chars(a) + huggingface::lower_chars(
            b,
        ),
    decreases b.len(),
{
    if b.len() == 0 {
        assert(a + b =~= a);
        assert(huggingface::lower_chars(a) + huggingface::lower_chars(b)
            =~= huggingface::lower_chars(a));
    } else {
        assert((a + b).drop_last() =~= a + b.drop_last());
        lemma_lower_chars_joined(a, b.drop_last());
        assert(huggingface::lower_chars(a + b) =~= huggingface::lower_chars(a)
            + huggingface::lower_chars(b));
    }
}

proof fn lemma_dash_runs_joined(a: Seq<char>, b: Seq<char>)
    requires
        a.len() == 0 || b.len() == 0 || text::is_alphanumeric(a.last()) || text::is_alphanumeric(
            b[0],
        ),
    ensures
        huggingface::dash_runs(a + b) == huggingface::dash_runs(a) + huggingface::dash_runs(b),
    decreases b.len(),
{
    let all = a + b;
    if b.len() == 0 {
        assert(all =~= a);
        assert(huggingface::dash_runs(a) + huggingface::dash_runs(b) =~= huggingface::dash_runs(a));
    } else {
        let before = b.drop_last();
        assert(all.drop_last() =~= a + before);
        assert(all.last() == b.last());
        lemma_dash_runs_joined(a, before);
        if b.len() > 1 {
            assert(all[all.len() - 2] == b[b.len() - 2]);
        } else if a.len() > 0 {
            assert(all[all.len() - 2] == a.last());
        }
        assert(huggingface::dash_runs(all) =~= huggingface::dash_runs(a) + huggingface::dash_runs(
            b,
        ));
    }
}

proof fn lemma_word_runs(word: Seq<char>)
    requires
        forall|i: int| 0 <= i < word.len() ==> text::is_alphanumeric(#[trigger] word[i]),
    ensures
        huggingface::dash_runs(word) == word,
    decreases word.len(),
{
    if word.len() > 0 {
        let before = word.drop_last();
        assert forall|i: int| 0 <= i < before.len() implies text::is_alphanumeric(
            #[trigger] before[i],
        ) by {
            assert(before[i] == word[i]);
        }
        lemma_word_runs(before);
        assert(text::is_alphanumeric(word[word.len() - 1]));
        assert(before.push(word.last()) =~= word);
    }
    assert(huggingface::dash_runs(word) =~= word);
}

/// An identifier that starts and ends with a letter or a digit in lower case,
/// before it is trimmed, is not trimmed.
proof fn lemma_runs_are_kept(low: Seq<char>)
    requires
        low.len() > 0,
        text::is_alphanumeric(low[0]),
        text::is_alphanumeric(low.last()),
    ensures
        huggingface::dash_runs(low).len() > 0,
        huggingface::dash_runs(low)[0] == low[0],
        huggingface::dash_runs(low).last() == low.last(),
        text::trim_by(huggingface::dash_runs(low), text::Cut::Only('-'))
            == huggingface::dash_runs(low),
{
    let first = seq![low[0]];
    let rest = low.drop_first();
    assert(low =~= first + rest);
    lemma_dash_runs_joined(first, rest);
    assert forall|i: int| 0 <= i < first.len() implies text::is_alphanumeric(
        #[trigger] first[i],
    ) by {}
    lemma_word_runs(first);
    let runs = huggingface::dash_runs(low);
    assert(runs[0] == low[0]);
    assert(runs.last() == low.last());
    text::lemma_trim_keeps(runs, text::Cut::Only('-'));
}

/// A word of ASCII letters and digits is its own identifier in lower case.
pub proof fn word_is_its_own_identifier(word: Seq<char>)
    requires
        forall|i: int| 0 <= i < word.len() ==> text::is_alphanumeric(#[trigger] word[i]),
    ensures
        huggingface::identifier_of(word) == text::ascii_lower_seq(word),
    decreases word.len(),
{
    lemma_word_lower(word);
    let low = text::ascii_lower_seq(word);
    assert forall|i: int| 0 <= i < low.len() implies text::is_alphanumeric(#[trigger] low[i]) by {
        assert(text::is_alphanumeric(word[i]));
    }
    lemma_word_runs(low);
    if low.len() > 0 {
        assert(text::is_alphanumeric(low[0]) && text::is_alphanumeric(low[low.len() - 1]));
        lemma_runs_are_kept(low);
    }
}

proof fn lemma_word_lower(word: Seq<char>)
    requires
        forall|i: int| 0 <= i < word.len() ==> text::is_alphanumeric(#[trigger] word[i]),
    ensures
        huggingface::lower_chars(word) == text::ascii_lower_seq(word),
    decreases word.len(),
{
    if word.len() > 0 {
        let before = word.drop_last();
        assert forall|i: int| 0 <= i < before.len() implies text::is_alphanumeric(
            #[trigger] before[i],
        ) by {
            assert(before[i] == word[i]);
        }
        lemma_word_lower(before);
        assert(text::is_alphanumeric(word[word.len() - 1]));
    }
    assert(huggingface::lower_chars(word) =~= text::ascii_lower_seq(word));
}

proof fn lemma_gap_lower(gap: Seq<char>)
    requires
        forall|i: int|
            0 <= i < gap.len() ==> (#[trigger] gap[i]) as u32 <= 0x7f && !text::is_alphanumeric(
                gap[i],
            ),
    ensures
        huggingface::lower_chars(gap) == gap,
        huggingface::dash_runs(gap) == (if gap.len() == 0 {
            Seq::<char>::empty()
        } else {
            seq!['-']
        }),
    decreases gap.len(),
{
    if gap.len() > 0 {
        let before = gap.drop_last();
        assert forall|i: int| 0 <= i < before.len() implies (#[trigger] before[i]) as u32 <= 0x7f
            && !text::is_alphanumeric(before[i]) by {
            assert(before[i] == gap[i]);
        }
        lemma_gap_lower(before);
        assert(gap[gap.len() - 1] as u32 <= 0x7f && !text::is_alphanumeric(gap[gap.len() - 1]));
        if gap.len() > 1 {
            assert(!text::is_alphanumeric(gap[gap.len() - 2]));
        }
        assert(text::char_lowercase(gap.last()) =~= seq![gap.last()]);
        assert(before + seq![gap.last()] =~= gap);
    }
    assert(huggingface::lower_chars(gap) =~= gap);
    assert(huggingface::dash_runs(gap) =~= (if gap.len() == 0 {
        Seq::<char>::empty()
    } else {
        seq!['-']
    }));
}

/// What stands between two letters or digits and is neither becomes one dash,
/// and the rest on either side is as it is by itself.
pub proof fn gap_becomes_one_dash(a: Seq<char>, gap: Seq<char>, b: Seq<char>)
    requires
        a.len() > 0,
        b.len() > 0,
        gap.len() > 0,
        text::is_alphanumeric(a[0]) && text::is_alphanumeric(a.last()),
        text::is_alphanumeric(b[0]) && text::is_alphanumeric(b.last()),
        forall|i: int|
            0 <= i < gap.len() ==> (#[trigger] gap[i]) as u32 <= 0x7f && !text::is_alphanumeric(
                gap[i],
            ),
    ensures
        huggingface::identifier_of(a + gap + b) == huggingface::identifier_of(a) + seq!['-']
            + huggingface::identifier_of(b),
{
    let la = huggingface::lower_chars(a);
    let lb = huggingface::lower_chars(b);
    lemma_lower_ends(a);
    lemma_lower_ends(b);
    lemma_gap_lower(gap);
    lemma_lower_chars_joined(a, gap);
    lemma_lower_chars_joined(a + gap, b);
    lemma_dash_runs_joined(la, gap);
    assert((la + gap).last() == gap.last());
    lemma_dash_runs_joined(la + gap, lb);
    let low = la + gap + lb;
    assert(low[0] == la[0]);
    assert(low.last() == lb.last());
    lemma_runs_are_kept(la);
    lemma_runs_are_kept(lb);
    lemma_runs_are_kept(low);
}

proof fn lemma_lower_ends(s: Seq<char>)
    requires
        s.len() > 0,
        text::is_alphanumeric(s[0]),
        text::is_alphanumeric(s.last()),
    ensures
        huggingface::lower_chars(s).len() > 0,
        text::is_alphanumeric(huggingface::lower_chars(s)[0]),
        text::is_alphanumeric(huggingface::lower_chars(s).last()),
{
    let first = seq![s[0]];
    assert(s =~= first + s.drop_first());
    lemma_lower_chars_joined(first, s.drop_first());
    assert forall|i: int| 0 <= i < first.len() implies text::is_alphanumeric(
        #[trigger] first[i],
    ) by {}
    lemma_word_lower(first);
    let last = seq![s.last()];
    assert(s =~= s.drop_last() + last);
    lemma_lower_chars_joined(s.drop_last(), last);
    assert forall|i: int| 0 <= i < last.len() implies text::is_alphanumeric(
        #[trigger] last[i],
    ) by {}
    lemma_word_lower(last);
    let low = huggingface::lower_chars(s);
    let low_last = huggingface::lower_chars(last);
    assert(low_last.len() == 1);
    assert(low.last() == low_last[0]);
}

/// Bytes are written in an address one after the other, each by itself: letters,
/// digits, dashes, underscores, dots and tildes as they are, and any other byte
/// as a percent sign and two hexadecimal digits.
pub proof fn bytes_are_written_one_by_one(bytes: Seq<u8>, b: u8)
    ensures
        huggingface::percent_encoded(bytes.push(b)).len() > huggingface::percent_encoded(
            bytes,
        ).len(),
        huggingface::percent_encoded(bytes.push(b)).take(
            huggingface::percent_encoded(bytes).len() as int,
        ) == huggingface::percent_encoded(bytes),
        ({
            let tail = huggingface::percent_encoded(bytes.push(b)).skip(
                huggingface::percent_encoded(bytes).len() as int,
            );
            let plain = b == 0x7e || b < 0x80 && is_name_char(b as char);
            &&& plain ==> tail == seq![b as char]
            &&& !plain ==> tail.len() == 3 && tail[0] == '%' && 16 * hex_value(tail[1])
                + hex_value(tail[2]) == b
        }),
{
    let all = bytes.push(b);
    assert(all.drop_last() =~= bytes);
    let before = huggingface::percent_encoded(bytes);
    let code = huggingface::encode_byte(b);
    let after = huggingface::percent_encoded(all);
    assert(after == before + code);
    assert(after.take(before.len() as int) =~= before);
    assert(after.skip(before.len() as int) =~= code);
}

/// The value of a hexadecimal digit in capitals.
pub open spec fn hex_value(c: char) -> int {
    if '0' <= c <= '9' {
        c as int - '0' as int
    } else {
        c as int - 'A' as int + 10
    }
}

/// The profile of a model file has the identifier and the name that were asked
/// for, without outer white space, or those made of the repository and the file.
pub proof fn asked_names_are_used(
    repo: Seq<char>,
    file: Seq<char>,
    left: Seq<char>,
    asked: Seq<char>,
    right: Seq<char>,
    other: Option<Seq<char>>,
)
    requires
        text_laws::all_white(left),
        text_laws::all_white(right),
        asked.len() > 0 ==> !text::is_white_space(asked[0]) && !text::is_white_space(asked.last()),
    ensures
        ({
            let typed = Some(left + asked + right);
            let made = huggingface::hf_profile(repo, file, None, None);
            let by_id = huggingface::hf_profile(repo, file, typed, other);
            let by_name = huggingface::hf_profile(repo, file, other, typed);
            &&& asked.len() > 0 ==> by_id.id == asked && by_name.name == asked
            &&& asked.len() == 0 ==> by_id.id == made.id && by_name.name == made.name
            &&& huggingface::hf_profile(repo, file, None, other).id == made.id
            &&& huggingface::hf_profile(repo, file, other, None).name == made.name
            &&& by_id.path == made.path
            &&& by_id.url == made.url
            &&& by_id.description == made.description
            &&& by_id.recommended_vram_gb is None
        }),
{
    text_laws::trimming_takes_outer_white_space(left, asked, right);
}

/// A model file in a directory of its repository is called by the repository and
/// by the name of the file alone, and is stored under both.
pub proof fn model_is_called_by_repo_and_file(
    repo: Seq<char>,
    directory: Seq<char>,
    stem: Seq<char>,
)
    requires
        forall|i: int| 0 <= i < stem.len() ==> #[trigger] stem[i] != '/',
    ensures
        ({
            let base = stem + ".bin"@;
            let p = huggingface::hf_profile(repo, directory + seq!['/'] + base, None, None);
            let q = huggingface::hf_profile(repo, base, None, None);
            &&& p.id == "hf-"@ + huggingface::identifier_of(repo) + "-"@
                + huggingface::identifier_of(stem)
            &&& p.name == repo + " / "@ + base
            &&& p.path == "/models/"@ + huggingface::identifier_of(repo) + "-"@
                + huggingface::file_name_of(base)
            &&& p.description == "Hugging Face GGML model: "@ + repo + "/"@ + (directory + seq!['/']
                + base)
            &&& q.id == p.id && q.name == p.name && q.path == p.path
        }),
{
    reveal_strlit(".bin");
    let base = stem + ".bin"@;
    assert forall|i: int| 0 <= i < base.len() implies #[trigger] base[i] != '/' by {
        if i < stem.len() {
            assert(base[i] == stem[i]);
        } else {
            assert(base[i] == ".bin"@[i - stem.len()]);
        }
    }
    lemma_unsplit(base, '/');
    lemma_last_part(directory, base);
    text_laws::held_pattern_stands_in_the_text(base, ".bin"@);
    assert(base.take(base.len() - 4) =~= stem);
}

proof fn lemma_last_part(directory: Seq<char>, base: Seq<char>)
    requires
        forall|i: int| 0 <= i < base.len() ==> #[trigger] base[i] != '/',
    ensures
        text::split_on(directory + seq!['/'] + base, '/').last() == base,
    decreases directory.len(),
{
    lemma_unsplit(base, '/');
    text::lemma_index_of(directory, '/');
    let k = text::index_of(directory, '/');
    if k >= directory.len() {
        lemma_split_at(directory, '/', base);
    } else {
        let first = directory.take(k);
        let rest = directory.skip(k + 1);
        assert forall|i: int| 0 <= i < first.len() implies #[trigger] first[i] != '/' by {
            assert(first[i] == directory[i]);
        }
        assert(directory + seq!['/'] + base =~= first + seq!['/'] + (rest + seq!['/'] + base));
        lemma_split_at(first, '/', rest + seq!['/'] + base);
        lemma_last_part(rest, base);
        text_laws::split_parts_join_to_the_text(rest + seq!['/'] + base, '/');
    }
}

/// The address of a model file is read back as its repository, and as the file
/// as it stands in the address.
pub proof fn profile_address_names_repo_and_file(repo: Seq<char>, file: Seq<char>)
    requires
        huggingface::check_repo(repo) is Ok,
        text::split_on(repo, '/')[1] != "resolve"@,
        ends_address(huggingface::encoded_path(file)),
        huggingface::encoded_path(file)[0] != '/',
        !text::is_white_space(huggingface::encoded_path(file)[0]),
    ensures
        huggingface::split_repo(huggingface::hf_profile(repo, file, None, None).url, None) == Ok::<
            huggingface::RepoText,
            RepoError,
        >(huggingface::RepoText { repo, file: Some(huggingface::encoded_path(file)) }),
{
    reveal_strlit("main");
    reveal_strlit("/resolve/");
    reveal_strlit("/resolve/main/");
    reveal_strlit("/");
    let encoded = huggingface::encoded_path(file);
    download_address_names_repo_and_file(repo, "main"@, encoded);
    assert("/resolve/main/"@ =~= "/resolve/"@ + "main"@ + "/"@);
    assert("https://huggingface.co/"@ + repo + "/resolve/main/"@ + encoded
        =~= "https://huggingface.co/"@ + repo + "/resolve/"@ + "main"@ + "/"@ + encoded);
}

/// A path is written in an address part by part, with its slashes kept.
pub proof fn slashes_of_a_path_are_kept(part: Seq<char>, rest: Seq<char>)
    requires
        forall|i: int| 0 <= i < part.len() ==> #[trigger] part[i] != '/',
    ensures
        huggingface::encoded_path(part) == huggingface::percent_encoded(
            vstd::utf8::encode_utf8(part),
        ),
        huggingface::encoded_path(part + seq!['/'] + rest) == huggingface::encoded_path(part)
            + seq!['/'] + huggingface::encoded_path(rest),
{
    reveal_strlit("/");
    lemma_unsplit(part, '/');
    lemma_split_at(part, '/', rest);
    let first = huggingface::encode_parts(seq![part]);
    let tail = huggingface::encode_parts(text::split_on(rest, '/'));
    assert(huggingface::encode_parts(seq![part] + text::split_on(rest, '/')) =~= first + tail);
    text_laws::split_parts_join_to_the_text(rest, '/');
    text_laws::joined_texts_stand_in_order(first, tail, "/"@);
    assert("/"@ =~= seq!['/']);
}

/// An address of the site is read the same with either scheme.
pub proof fn either_scheme_is_read(path: Seq<char>, file: Option<Seq<char>>)
    requires
        ends_address(path),
        path[0] != '/',
    ensures
        huggingface::split_repo("http://huggingface.co/"@ + path, file) == huggingface::split_repo(
            "https://huggingface.co/"@ + path,
            file,
        ),
{
    lemma_site_path_of_address(path);
    reveal_strlit("http://huggingface.co/");
    reveal_strlit("https://huggingface.co/");
    let site = "http://huggingface.co/"@;
    let all = site + path;
    assert(all[0] == 'h' && all[4] == ':');
    assert(all.last() == path.last());
    text::lemma_trim_keeps(all, text::Cut::Space);
    text::lemma_trim_keeps(all, text::Cut::Only('/'));
    assert forall|i: int| 0 <= i < all.len() implies (#[trigger] all[i]) != '?' && all[i]
        != '#' by {
        if i >= site.len() {
            assert(all[i] == path[i - site.len()]);
        }
    }
    lemma_up_to_absent(all, '?');
    lemma_up_to_absent(all, '#');
    assert(all.subrange(0, site.len() as int) =~= site);
    if text::starts_with(all, "https://huggingface.co/"@) {
        let sub = all.subrange(0, "https://huggingface.co/"@.len() as int);
        assert(sub[4] == all[4]);
        assert("https://huggingface.co/"@[4] == 's');
    }
    assert(all.skip(site.len() as int) =~= path);
    text::lemma_trim_keeps(path, text::Cut::Only('/'));
}

/// What stands behind the model and is no model file is not read as one: the
/// text names no repository.
pub proof fn other_file_behind_the_model_is_refused(repo: Seq<char>, file: Seq<char>)
    requires
        huggingface::check_repo(repo) is Ok,
        ends_address(file),
        !text::ends_with(text::lowercase(file), ".bin"@),
        forall|i: int| 0 <= i < file.len() ==> #[trigger] file[i] != ':',
        has_no_link(repo + seq!['/'] + file),
    ensures
        huggingface::split_repo(repo + seq!['/'] + file, None) == Err::<huggingface::RepoText, _>(
            RepoError::NotOwnerModel,
        ),
{
    let path = repo + seq!['/'] + file;
    let n = repo.len() as int;
    lemma_site_path_of_plain(repo, '/', file);
    lemma_checked_repo(repo);
    let t = huggingface::RepoText { repo: path, file: None };
    assert(huggingface::cut_links(t) == t);
    assert(huggingface::cut_tree(t) == t);
    assert forall|j: int| 0 <= j < path.len() implies #[trigger] path[j] != ':' by {
        if j < n {
            assert(path[j] == repo[j]);
            assert(huggingface::is_repo_char(repo[j]));
        } else if j > n {
            assert(path[j] == file[j - n - 1]);
        }
    }
    text::lemma_index_of(path, ':');
    assert(huggingface::cut_colon(t) == t);
    let k = text::index_of(repo, '/');
    let owner = repo.take(k);
    let model = repo.skip(k + 1);
    assert forall|i: int| 0 <= i < owner.len() implies #[trigger] owner[i] != '/' by {
        assert(owner[i] == repo[i]);
    }
    assert forall|i: int| 0 <= i < model.len() implies #[trigger] model[i] != '/' by {
        assert(model[i] == repo[i + k + 1]);
    }
    assert(path =~= owner + seq!['/'] + (model + seq!['/'] + file));
    lemma_split_at(owner, '/', model + seq!['/'] + file);
    lemma_split_at(model, '/', file);
    let parts = text::split_on(path, '/');
    assert(parts.skip(2) =~= text::split_on(file, '/'));
    text_laws::split_parts_join_to_the_text(file, '/');
    reveal_strlit("/");
    assert("/"@ =~= seq!['/']);
    assert(huggingface::cut_path(t) == t);
    repo_name_has_one_slash(owner, model, file);
    assert(huggingface::is_repo_char(repo[0]));
    assert(path[0] == repo[0] && path.last() == file.last());
    text::lemma_trim_keeps(path, text::Cut::Only('/'));
}

/// The message about a file that is not there tells its name and then the names
/// of the files that are there.
pub proof fn missing_file_is_told_with_the_others(asked: Seq<char>, available: Seq<char>)
    ensures
        ({
            let told = huggingface::select_error_message(
                huggingface::SelectErrorView::NotFound { requested: asked, available },
            );
            &&& text::ends_with(told, available)
            &&& text::contains_text(told.take(told.len() - available.len()), asked)
        }),
{
    let told = huggingface::select_error_message(
        huggingface::SelectErrorView::NotFound { requested: asked, available },
    );
    let n = told.len() - available.len();
    assert(told.subrange(n, told.len() as int) =~= available);
    let head = told.take(n);
    let k = "file '"@.len() as int;
    assert(head.subrange(k, k + asked.len()) =~= asked);
    assert(text::occurs_at(head, asked, k));
}

} // verus!
