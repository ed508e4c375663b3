//! Hugging Face model repositories: reading what a user typed as a
//! repository, choosing a model file in it and making a profile of it.

use vstd::prelude::*;

use crate::models::{ModelProfile, ProfileView};
use crate::text;

verus! {

// ---------------------------------------------------------------------------
// Reading the repository and file name
// ---------------------------------------------------------------------------

/// Why a text names no repository.
#[derive(Clone, Copy, Debug, PartialEq, Eq, Structural)]
pub enum RepoError {
    /// Nothing was given.
    Empty,
    /// The text is not of the form `owner/model`.
    NotOwnerModel,
    /// The name holds characters that no repository has.
    UnsupportedCharacters,
}

/// What a user is told about a [`RepoError`].
pub open spec fn repo_error_message(e: RepoError) -> Seq<char> {
    match e {
        RepoError::Empty => "Hugging Face repo name is empty; expected owner/model"@,
        RepoError::NotOwnerModel => "expected Hugging Face repo name in owner/model form"@,
        RepoError::UnsupportedCharacters =>
            "Hugging Face repo name contains unsupported characters"@,
    }
}

impl RepoError {
    /// What a user is told about the error.
    pub fn message(&self) -> (r: String)
        ensures
            r@ == repo_error_message(*self),
    {
        match self {
            RepoError::Empty => {
                "Hugging Face repo name is empty; expected owner/model".to_owned()
            },
            RepoError::NotOwnerModel => {
                "expected Hugging Face repo name in owner/model form".to_owned()
            },
            RepoError::UnsupportedCharacters => {
                "Hugging Face repo name contains unsupported characters".to_owned()
            },
        }
    }
}

/// The characters that a repository name may hold.
pub open spec fn is_repo_char(c: char) -> bool {
    text::is_alphanumeric(c) || c == '/' || c == '-' || c == '_' || c == '.'
}

/// Whether `parts` are two parts that are not blank.
pub open spec fn are_owner_and_model(parts: Seq<Seq<char>>) -> bool {
    &&& parts.len() == 2
    &&& text::trim(parts[0]).len() > 0
    &&& text::trim(parts[1]).len() > 0
}

/// Whether `repo` is a repository name, and if not, why.
pub open spec fn check_repo(repo: Seq<char>) -> Result<(), RepoError> {
    if !are_owner_and_model(text::split_on(repo, '/')) {
        Err(RepoError::NotOwnerModel)
    } else if exists|i: int| 0 <= i < repo.len() && !is_repo_char(#[trigger] repo[i]) {
        Err(RepoError::UnsupportedCharacters)
    } else {
        Ok(())
    }
}

/// Whether `repo_id` is a repository name in `owner/model` form.
pub fn validate_huggingface_repo_id(repo_id: &str) -> (r: Result<(), RepoError>)
    ensures
        r == check_repo(repo_id@),
{
    let parts = text::split_str(repo_id, '/');
    let ghost views = text::views(parts@);
    if parts.len() != 2 {
        return Err(RepoError::NotOwnerModel);
    }
    assert(views[0] == parts@[0]@ && views[1] == parts@[1]@);
    if text::is_blank(parts[0].as_str()) || text::is_blank(parts[1].as_str()) {
        return Err(RepoError::NotOwnerModel);
    }
    let chars = text::to_chars(repo_id);
    for i in 0..chars.len()
        invariant
            chars@ == repo_id@,
            are_owner_and_model(text::split_on(repo_id@, '/')),
            forall|j: int| 0 <= j < i ==> is_repo_char(#[trigger] repo_id@[j]),
    {
        let c: char = chars[i];
        if !(text::char_is_alphanumeric(c) || c == '/' || c == '-' || c == '_' || c == '.') {
            assert(!is_repo_char(repo_id@[i as int]));
            return Err(RepoError::UnsupportedCharacters);
        }
    }
    Ok(())
}

/// The file that stands behind the revision in `revision/file`.
pub open spec fn file_after_revision(s: Seq<char>) -> Option<Seq<char>> {
    let i = text::index_of(s, '/');
    let file = text::trim_leading_slashes(text::trim(s.skip(i + 1)));
    if i < s.len() && file.len() > 0 {
        Some(file)
    } else {
        None
    }
}

/// The file that stands behind the revision in `revision/file`.
pub fn filename_after_revision(revision_and_file: &str) -> (r: Option<String>)
    ensures
        text::opt_view(r) == file_after_revision(revision_and_file@),
{
    let chars = text::to_chars(revision_and_file);
    assert(revision_and_file@.skip(0) =~= revision_and_file@);
    proof {
        text::lemma_index_of(revision_and_file@, '/');
    }
    let i: usize = text::find_char_from(&chars, '/', 0);
    if i == chars.len() {
        return None;
    }
    let n: usize = chars.len();
    let rest = revision_and_file.substring_char(i + 1, n);
    assert(rest@ =~= revision_and_file@.skip(i + 1));
    let file = text::trim_start_cut(text::trim_str(rest), text::Cut::Only('/'));
    if file.is_empty() {
        None
    } else {
        Some(file.to_owned())
    }
}

/// A repository text on the way to its parts: what is still to be read of
/// it, and the file name if one is known.
#[verifier::ext_equal]
pub struct RepoText {
    pub repo: Seq<char>,
    pub file: Option<Seq<char>>,
}

/// `s` up to the first `c`.
pub open spec fn up_to(s: Seq<char>, c: char) -> Seq<char> {
    s.take(text::index_of(s, c))
}

/// `s` without the address of the Hugging Face site at its start.
pub open spec fn without_site(s: Seq<char>) -> Seq<char> {
    if text::starts_with(s, "https://huggingface.co/"@) {
        text::trim_slashes(s.skip("https://huggingface.co/"@.len() as int))
    } else if text::starts_with(s, "http://huggingface.co/"@) {
        text::trim_slashes(s.skip("http://huggingface.co/"@.len() as int))
    } else {
        s
    }
}

/// The path on the site that a typed text stands for: without query,
/// fragment, outer slashes and site address.
pub open spec fn site_path(typed: Seq<char>) -> Seq<char> {
    without_site(
        text::trim_slashes(text::trim(up_to(up_to(text::trim(typed), '?'), '#'))),
    )
}

/// The file name that was asked for beside the repository.
pub open spec fn typed_file(file: Option<Seq<char>>) -> Option<Seq<char>> {
    match file {
        Some(f) => if text::trim(f).len() > 0 {
            Some(text::trim_leading_slashes(text::trim(f)))
        } else {
            None
        },
        None => None,
    }
}

/// Takes `/marker/revision/file` off the end of the path; the file counts
/// where none is known.
pub open spec fn cut_file_link(t: RepoText, marker: Seq<char>) -> Option<RepoText> {
    match text::find_text(t.repo, marker) {
        Some(i) => Some(
            RepoText {
                repo: text::trim_slashes(t.repo.take(i)),
                file: if t.file is Some {
                    t.file
                } else {
                    file_after_revision(t.repo.skip(i + marker.len()))
                },
            },
        ),
        None => None,
    }
}

/// Takes a link to a file (`/resolve/..` or else `/blob/..`) off the path.
pub open spec fn cut_links(t: RepoText) -> RepoText {
    match cut_file_link(t, "/resolve/"@) {
        Some(u) => u,
        None => match cut_file_link(t, "/blob/"@) {
            Some(u) => u,
            None => t,
        },
    }
}

/// Takes a link to a directory (`/tree/..`) off the path.
pub open spec fn cut_tree(t: RepoText) -> RepoText {
    match text::find_text(t.repo, "/tree/"@) {
        Some(i) => RepoText { repo: text::trim_slashes(t.repo.take(i)), file: t.file },
        None => t,
    }
}

/// Where no file is known, reads it from behind a colon.
pub open spec fn cut_colon(t: RepoText) -> RepoText {
    let i = text::index_of(t.repo, ':');
    let file = text::trim_leading_slashes(text::trim(t.repo.skip(i + 1)));
    if t.file is None && i < t.repo.len() {
        RepoText {
            repo: text::trim_slashes(t.repo.take(i)),
            file: if file.len() > 0 {
                Some(file)
            } else {
                None
            },
        }
    } else {
        t
    }
}

/// Whether a file name is that of a model: it ends in `.bin`, in any case.
pub open spec fn is_bin_name(name: Seq<char>) -> bool {
    text::ends_with(text::lowercase(name), ".bin"@)
}

/// Where no file is known, reads it from behind `owner/model/`.
pub open spec fn cut_path(t: RepoText) -> RepoText {
    let parts = text::split_on(t.repo, '/');
    let file = text::join(parts.skip(2), "/"@);
    if t.file is None && parts.len() > 2 && is_bin_name(file) {
        RepoText { repo: parts[0] + "/"@ + parts[1], file: Some(file) }
    } else {
        t
    }
}

/// The repository and file that the typed texts stand for, before the
/// repository is checked.
pub open spec fn read_repo(typed: Seq<char>, file: Option<Seq<char>>) -> RepoText {
    let t = cut_path(
        cut_colon(
            cut_tree(cut_links(RepoText { repo: site_path(typed), file: typed_file(file) })),
        ),
    );
    RepoText { repo: text::trim_slashes(t.repo), file: t.file }
}

/// The repository and file that the typed texts stand for.
pub open spec fn split_repo(typed: Seq<char>, file: Option<Seq<char>>) -> Result<
    RepoText,
    RepoError,
> {
    let t = read_repo(typed, file);
    if text::trim(typed).len() == 0 {
        Err(RepoError::Empty)
    } else {
        match check_repo(t.repo) {
            Ok(()) => Ok(t),
            Err(e) => Err(e),
        }
    }
}

/// A repository text on the way to its parts.
struct RepoTextBuf {
    repo: String,
    file: Option<String>,
}

impl RepoTextBuf {
    spec fn view(&self) -> RepoText {
        RepoText { repo: self.repo@, file: text::opt_view(self.file) }
    }
}

fn take_up_to(s: &str, c: char) -> (r: &str)
    ensures
        r@ == up_to(s@, c),
{
    let chars = text::to_chars(s);
    assert(s@.skip(0) =~= s@);
    proof {
        text::lemma_index_of(s@, c);
    }
    let i: usize = text::find_char_from(&chars, c, 0);
    assert(s@.subrange(0, i as int) =~= s@.take(i as int));
    s.substring_char(0, i)
}

fn skip_chars(s: &str, n: usize) -> (r: &str)
    requires
        n <= s@.len(),
    ensures
        r@ == s@.skip(n as int),
{
    let len: usize = s.unicode_len();
    assert(s@.subrange(n as int, len as int) =~= s@.skip(n as int));
    s.substring_char(n, len)
}

fn take_chars(s: &str, n: usize) -> (r: &str)
    requires
        n <= s@.len(),
    ensures
        r@ == s@.take(n as int),
{
    assert(s@.subrange(0, n as int) =~= s@.take(n as int));
    s.substring_char(0, n)
}

fn strip_site(s: &str) -> (r: &str)
    ensures
        r@ == without_site(s@),
{
    if text::starts_with_str(s, "https://huggingface.co/") {
        let n: usize = "https://huggingface.co/".unicode_len();
        text::trim_slashes_str(skip_chars(s, n))
    } else if text::starts_with_str(s, "http://huggingface.co/") {
        let n: usize = "http://huggingface.co/".unicode_len();
        text::trim_slashes_str(skip_chars(s, n))
    } else {
        s
    }
}

fn read_site_path(typed: &str) -> (r: &str)
    ensures
        r@ == site_path(typed@),
{
    let plain = take_up_to(take_up_to(text::trim_str(typed), '?'), '#');
    strip_site(text::trim_slashes_str(text::trim_str(plain)))
}

fn read_typed_file(file: Option<&str>) -> (r: Option<String>)
    ensures
        text::opt_view(r) == typed_file(text::opt_str_view(file)),
{
    match file {
        Some(f) => {
            let name = text::trim_str(f);
            if name.is_empty() {
                None
            } else {
                Some(text::trim_start_cut(name, text::Cut::Only('/')).to_owned())
            }
        },
        None => None,
    }
}

fn find_marker(s: &str, marker: &str) -> (r: Option<usize>)
    ensures
        text::find_text(s@, marker@) == (match r {
            Some(i) => Some(i as int),
            None => None,
        }),
        r matches Some(i) ==> i + marker@.len() <= s@.len() <= usize::MAX,
{
    let chars = text::to_chars(s);
    assert(chars.len() == s@.len());
    text::find_chars(&chars, &text::to_chars(marker))
}

fn cut_file_link_at(t: RepoTextBuf, marker: &str) -> (r: Result<RepoTextBuf, RepoTextBuf>)
    ensures
        match r {
            Ok(u) => cut_file_link(t@, marker@) == Some(u@),
            Err(u) => cut_file_link(t@, marker@) is None && u@ == t@,
        },
{
    match find_marker(t.repo.as_str(), marker) {
        Some(i) => {
            let n: usize = marker.unicode_len();
            let repo = text::trim_slashes_str(take_chars(t.repo.as_str(), i)).to_owned();
            let file = if t.file.is_some() {
                t.file
            } else {
                filename_after_revision(skip_chars(t.repo.as_str(), i + n))
            };
            Ok(RepoTextBuf { repo, file })
        },
        None => Err(t),
    }
}

fn cut_file_links(t: RepoTextBuf) -> (r: RepoTextBuf)
    ensures
        r@ == cut_links(t@),
{
    match cut_file_link_at(t, "/resolve/") {
        Ok(u) => u,
        Err(u) => match cut_file_link_at(u, "/blob/") {
            Ok(v) => v,
            Err(v) => v,
        },
    }
}

fn cut_tree_link(t: RepoTextBuf) -> (r: RepoTextBuf)
    ensures
        r@ == cut_tree(t@),
{
    match find_marker(t.repo.as_str(), "/tree/") {
        Some(i) => RepoTextBuf {
            repo: text::trim_slashes_str(take_chars(t.repo.as_str(), i)).to_owned(),
            file: t.file,
        },
        None => t,
    }
}

fn cut_colon_file(t: RepoTextBuf) -> (r: RepoTextBuf)
    ensures
        r@ == cut_colon(t@),
{
    if t.file.is_some() {
        return t;
    }
    let chars = text::to_chars(t.repo.as_str());
    assert(t.repo@.skip(0) =~= t.repo@);
    proof {
        text::lemma_index_of(t.repo@, ':');
    }
    let i: usize = text::find_char_from(&chars, ':', 0);
    if i == chars.len() {
        return t;
    }
    let behind = text::trim_str(skip_chars(t.repo.as_str(), i + 1));
    let name = text::trim_start_cut(behind, text::Cut::Only('/'));
    let file = if name.is_empty() {
        None
    } else {
        Some(name.to_owned())
    };
    RepoTextBuf { repo: text::trim_slashes_str(take_chars(t.repo.as_str(), i)).to_owned(), file }
}

/// Whether a file name is that of a model: it ends in `.bin`, in any case.
pub fn is_bin_file(name: &str) -> (b: bool)
    ensures
        b == is_bin_name(name@),
{
    text::ends_with_str(text::lowercase_str(name).as_str(), ".bin")
}

fn strings_from(v: &Vec<String>, from: usize) -> (r: Vec<String>)
    requires
        from <= v@.len(),
    ensures
        text::views(r@) == text::views(v@).skip(from as int),
{
    let mut out: Vec<String> = Vec::new();
    let n: usize = v.len();
    for i in from..n
        invariant
            n == v@.len(),
            from <= n,
            out@.len() == i - from,
            forall|j: int| 0 <= j < i - from ==> (#[trigger] out@[j])@ == v@[from + j]@,
    {
        out.push(v[i].clone());
    }
    assert(text::views(out@) =~= text::views(v@).skip(from as int));
    out
}

fn cut_path_file(t: RepoTextBuf) -> (r: RepoTextBuf)
    ensures
        r@ == cut_path(t@),
{
    if t.file.is_some() {
        return t;
    }
    let parts = text::split_str(t.repo.as_str(), '/');
    if parts.len() <= 2 {
        return t;
    }
    let file = text::join_strs(&strings_from(&parts, 2), "/");
    if !is_bin_file(file.as_str()) {
        return t;
    }
    proof {
        let views = text::views(parts@);
        assert(views[0] == parts@[0]@ && views[1] == parts@[1]@);
    }
    let repo = text::concat3(parts[0].as_str(), "/", parts[1].as_str());
    RepoTextBuf { repo, file: Some(file) }
}

/// The repository in `owner/model` form and the file, if one is named, that
/// a typed repository text and an optional typed file name stand for.
///
/// The text may be the name itself, an address on the Hugging Face site, a
/// link to a file or directory there, `owner/model:file` or
/// `owner/model/file.bin`.
pub fn split_huggingface_repo_and_filename(
    repo_input: &str,
    filename_input: Option<&str>,
) -> (r: Result<(String, Option<String>), RepoError>)
    ensures
        split_repo(repo_input@, text::opt_str_view(filename_input)) == (match r {
            Ok((repo, file)) => Ok(RepoText { repo: repo@, file: text::opt_view(file) }),
            Err(e) => Err(e),
        }),
{
    if text::is_blank(repo_input) {
        return Err(RepoError::Empty);
    }
    let typed = RepoTextBuf {
        repo: read_site_path(repo_input).to_owned(),
        file: read_typed_file(filename_input),
    };
    let t = cut_path_file(cut_colon_file(cut_tree_link(cut_file_links(typed))));
    let repo_id = text::trim_slashes_str(t.repo.as_str()).to_owned();
    match validate_huggingface_repo_id(repo_id.as_str()) {
        Ok(()) => Ok((repo_id, t.file)),
        Err(e) => Err(e),
    }
}

// ---------------------------------------------------------------------------
// Choosing a model file
// ---------------------------------------------------------------------------

/// A file of a repository.
#[derive(Debug)]
pub struct HuggingFaceSibling {
    pub rfilename: String,
}

/// The names of the files of a repository.
pub open spec fn file_names(siblings: Seq<HuggingFaceSibling>) -> Seq<Seq<char>> {
    siblings.map_values(|s: HuggingFaceSibling| s.rfilename@)
}

/// Those of `names` that are names of models, in their order.
pub open spec fn bin_names(names: Seq<Seq<char>>) -> Seq<Seq<char>>
    decreases names.len(),
{
    if names.len() == 0 {
        Seq::empty()
    } else {
        let before = bin_names(names.drop_last());
        if is_bin_name(names.last()) {
            before.push(names.last())
        } else {
            before
        }
    }
}

/// How much a name suggests a good Whisper model: GGML files first, then by
/// the size that it names.
pub open spec fn file_score(filename: Seq<char>) -> int {
    let name = text::lowercase(filename);
    let ggml: int = if text::contains_text(name, "ggml"@) {
        100
    } else {
        0
    };
    let size: int = if text::contains_text(name, "large-v3"@) {
        90
    } else if text::contains_text(name, "large-v2"@) {
        85
    } else if text::contains_text(name, "large"@) {
        80
    } else if text::contains_text(name, "medium"@) {
        70
    } else if text::contains_text(name, "small"@) {
        60
    } else if text::contains_text(name, "base"@) {
        50
    } else if text::contains_text(name, "tiny"@) {
        40
    } else {
        0
    };
    ggml + size
}

/// How much a name suggests a good Whisper model.
pub fn huggingface_file_score(filename: &str) -> (r: i32)
    ensures
        r == file_score(filename@),
{
    let name = text::lowercase_str(filename);
    let ggml: i32 = if text::contains_str(name.as_str(), "ggml") {
        100
    } else {
        0
    };
    let size: i32 = if text::contains_str(name.as_str(), "large-v3") {
        90
    } else if text::contains_str(name.as_str(), "large-v2") {
        85
    } else if text::contains_str(name.as_str(), "large") {
        80
    } else if text::contains_str(name.as_str(), "medium") {
        70
    } else if text::contains_str(name.as_str(), "small") {
        60
    } else if text::contains_str(name.as_str(), "base") {
        50
    } else if text::contains_str(name.as_str(), "tiny") {
        40
    } else {
        0
    };
    ggml + size
}

/// Whether `a` is preferred to `b`: it scores higher, or as high and comes
/// first by name.
pub open spec fn is_preferred(a: Seq<char>, b: Seq<char>) -> bool {
    ||| file_score(a) > file_score(b)
    ||| file_score(a) == file_score(b) && text::text_before(a, b)
}

/// Whether `best` is one of `names` to which no other is preferred.
pub open spec fn is_best(names: Seq<Seq<char>>, best: Seq<char>) -> bool {
    &&& names.contains(best)
    &&& forall|i: int| 0 <= i < names.len() ==> !is_preferred(#[trigger] names[i], best)
}

/// The candidates as a user is shown them: the first eight.
pub open spec fn candidate_summary(names: Seq<Seq<char>>) -> Seq<char> {
    if names.len() == 0 {
        "none"@
    } else if names.len() > 8 {
        text::join(names.take(8), ", "@) + ", ..."@
    } else {
        text::join(names, ", "@)
    }
}

/// The candidates as a user is shown them: the first eight.
pub fn summarize_candidates(candidates: &Vec<String>) -> (r: String)
    ensures
        r@ == candidate_summary(text::views(candidates@)),
{
    if candidates.len() == 0 {
        return "none".to_owned();
    }
    if candidates.len() > 8 {
        let mut first: Vec<String> = Vec::new();
        for i in 0..8usize
            invariant
                candidates@.len() > 8,
                first@.len() == i,
                forall|j: int| 0 <= j < i ==> (#[trigger] first@[j])@ == candidates@[j]@,
        {
            first.push(candidates[i].clone());
        }
        assert(text::views(first@) =~= text::views(candidates@).take(8));
        let mut names = text::join_strs(&first, ", ");
        names.append(", ...");
        names
    } else {
        text::join_strs(candidates, ", ")
    }
}

/// Why no model file could be chosen.
#[derive(Debug)]
pub enum SelectError {
    /// The requested file is none of the repository's model files.
    NotFound { requested: String, available: String },
    /// The repository has no model file.
    NoModelFile,
}

/// The contents of a [`SelectError`].
#[verifier::ext_equal]
pub enum SelectErrorView {
    NotFound { requested: Seq<char>, available: Seq<char> },
    NoModelFile,
}

impl View for SelectError {
    type V = SelectErrorView;

    open spec fn view(&self) -> SelectErrorView {
        match self {
            SelectError::NotFound { requested, available } => SelectErrorView::NotFound {
                requested: requested@,
                available: available@,
            },
            SelectError::NoModelFile => SelectErrorView::NoModelFile,
        }
    }
}

/// What a user is told about a [`SelectError`].
pub open spec fn select_error_message(e: SelectErrorView) -> Seq<char> {
    match e {
        SelectErrorView::NotFound { requested, available } => "file '"@ + requested
            + "' was not found in the Hugging Face repo; available .bin files: "@ + available,
        SelectErrorView::NoModelFile => "no .bin model file was found in the Hugging Face repo"@,
    }
}

impl SelectError {
    /// What a user is told about the error.
    pub fn message(&self) -> (r: String)
        ensures
            r@ == select_error_message(self@),
    {
        match self {
            SelectError::NotFound { requested, available } => {
                let mut s = text::concat3(
                    "file '",
                    requested.as_str(),
                    "' was not found in the Hugging Face repo; available .bin files: ",
                );
                s.append(available.as_str());
                s
            },
            SelectError::NoModelFile => {
                "no .bin model file was found in the Hugging Face repo".to_owned()
            },
        }
    }
}

/// What choosing a file gives: the requested one if it is there, otherwise,
/// where none was requested, the best one.
pub open spec fn selects(
    names: Seq<Seq<char>>,
    requested: Option<Seq<char>>,
    r: Result<Seq<char>, SelectErrorView>,
) -> bool {
    let bins = bin_names(names);
    match typed_file(requested) {
        Some(file) => if bins.contains(file) {
            r == Ok::<Seq<char>, SelectErrorView>(file)
        } else {
            r == Err::<Seq<char>, SelectErrorView>(
                SelectErrorView::NotFound { requested: file, available: candidate_summary(bins) },
            )
        },
        None => if bins.len() == 0 {
            r == Err::<Seq<char>, SelectErrorView>(SelectErrorView::NoModelFile)
        } else {
            r matches Ok(best) && is_best(bins, best)
        },
    }
}

fn collect_bin_files(siblings: &Vec<HuggingFaceSibling>) -> (r: Vec<String>)
    ensures
        text::views(r@) == bin_names(file_names(siblings@)),
{
    let mut out: Vec<String> = Vec::new();
    let ghost names = file_names(siblings@);
    assert(text::views(out@) =~= bin_names(names.take(0)));
    for i in 0..siblings.len()
        invariant
            names == file_names(siblings@),
            text::views(out@) == bin_names(names.take(i as int)),
    {
        let ghost before = out@;
        proof {
            assert(names.take(i + 1).drop_last() =~= names.take(i as int));
            assert(names.take(i + 1).last() == siblings@[i as int].rfilename@);
        }
        if is_bin_file(siblings[i].rfilename.as_str()) {
            out.push(siblings[i].rfilename.clone());
            assert(text::views(out@) =~= text::views(before).push(siblings@[i as int].rfilename@));
        }
    }
    assert(names.take(siblings@.len() as int) =~= names);
    out
}

fn prefers(a: &str, b: &str) -> (r: bool)
    ensures
        r == is_preferred(a@, b@),
{
    let sa: i32 = huggingface_file_score(a);
    let sb: i32 = huggingface_file_score(b);
    sa > sb || (sa == sb && text::str_before(a, b))
}

/// The model file to use of a repository with the files `siblings`: the
/// requested one, which must be there, or the best one.
pub fn select_huggingface_model_file(
    siblings: &Vec<HuggingFaceSibling>,
    requested_filename: Option<&str>,
) -> (r: Result<String, SelectError>)
    ensures
        selects(
            file_names(siblings@),
            text::opt_str_view(requested_filename),
            match r {
                Ok(f) => Ok(f@),
                Err(e) => Err(e@),
            },
        ),
{
    let bins = collect_bin_files(siblings);
    let ghost views = text::views(bins@);
    if let Some(requested) = read_typed_file(requested_filename) {
        for i in 0..bins.len()
            invariant
                views == text::views(bins@),
                views == bin_names(file_names(siblings@)),
                typed_file(text::opt_str_view(requested_filename)) == Some(requested@),
                forall|j: int| 0 <= j < i ==> (#[trigger] views[j]) != requested@,
        {
            if text::str_eq(bins[i].as_str(), requested.as_str()) {
                assert(views[i as int] == requested@);
                return Ok(requested);
            }
            assert(views[i as int] == bins@[i as int]@);
        }
        assert(!views.contains(requested@));
        let available = summarize_candidates(&bins);
        return Err(SelectError::NotFound { requested, available });
    }
    if bins.len() == 0 {
        return Err(SelectError::NoModelFile);
    }
    let mut best: usize = 0;
    assert(!is_preferred(views[0], views[0])) by {
        text::lemma_before_irreflexive(views[0]);
    }
    for i in 1..bins.len()
        invariant
            views == text::views(bins@),
            best < bins@.len(),
            1 <= bins@.len(),
            forall|j: int| 0 <= j < i ==> !is_preferred(#[trigger] views[j], views[best as int]),
    {
        if prefers(bins[i].as_str(), bins[best].as_str()) {
            proof {
                assert(is_preferred(views[i as int], views[best as int]));
                text::lemma_before_irreflexive(views[i as int]);
                assert forall|j: int| 0 <= j < i + 1 implies !is_preferred(
                    #[trigger] views[j],
                    views[i as int],
                ) by {
                    if j < i && is_preferred(views[j], views[i as int]) {
                        text::lemma_before_transitive(
                            views[j],
                            views[i as int],
                            views[best as int],
                        );
                        assert(is_preferred(views[j], views[best as int]));
                    }
                }
            }
            best = i;
        } else {
            assert(views[i as int] == bins@[i as int]@);
            assert(views[best as int] == bins@[best as int]@);
        }
    }
    assert(views[best as int] == bins@[best as int]@);
    assert(views.contains(views[best as int]));
    Ok(bins[best].clone())
}

/// Two best names of one list are the same name.
pub proof fn best_file_is_unique(names: Seq<Seq<char>>, a: Seq<char>, b: Seq<char>)
    requires
        is_best(names, a),
        is_best(names, b),
    ensures
        a == b,
{
    let i = choose|i: int| 0 <= i < names.len() && names[i] == a;
    let j = choose|j: int| 0 <= j < names.len() && names[j] == b;
    assert(!is_preferred(names[i], b));
    assert(!is_preferred(names[j], a));
    text::lemma_before_total(a, b);
}

// ---------------------------------------------------------------------------
// Names that are safe in identifiers, paths and addresses
// ---------------------------------------------------------------------------

/// The lower case of each character of `s`, one after the other.
pub open spec fn lower_chars(s: Seq<char>) -> Seq<char>
    decreases s.len(),
{
    if s.len() == 0 {
        Seq::empty()
    } else {
        lower_chars(s.drop_last()) + text::char_lowercase(s.last())
    }
}

/// `s` with each run of characters that are no ASCII letters or digits
/// replaced by one dash.
pub open spec fn dash_runs(s: Seq<char>) -> Seq<char>
    decreases s.len(),
{
    if s.len() == 0 {
        Seq::empty()
    } else {
        let before = dash_runs(s.drop_last());
        if text::is_alphanumeric(s.last()) {
            before.push(s.last())
        } else if s.len() > 1 && !text::is_alphanumeric(s[s.len() - 2]) {
            before
        } else {
            before.push('-')
        }
    }
}

/// `value` as an identifier: in lower case, with single dashes in place of
/// what is no letter or digit, and none at the ends.
pub open spec fn identifier_of(value: Seq<char>) -> Seq<char> {
    text::trim_by(dash_runs(lower_chars(value)), text::Cut::Only('-'))
}

/// `value` as an identifier.
pub fn sanitize_identifier(value: &str) -> (r: String)
    ensures
        r@ == identifier_of(value@),
{
    let mut lower: Vec<char> = Vec::new();
    for c in it: value.chars()
        invariant
            lower@ == lower_chars(it.seq().take(it.index())),
            it.seq() == value@,
    {
        let small = text::lowercase_char(c);
        let ghost before = lower@;
        let n: usize = small.len();
        for k in 0..n
            invariant
                n == small@.len(),
                lower@ == before + small@.take(k as int),
        {
            lower.push(small[k]);
        }
        proof {
            assert(small@.take(n as int) =~= small@);
            assert(it.seq().take(it.index() + 1).drop_last() =~= it.seq().take(it.index()));
        }
    }
    assert(value@.take(value@.len() as int) =~= value@);
    let mut out = String::new();
    let mut last_dash = false;
    for i in 0..lower.len()
        invariant
            lower@ == lower_chars(value@),
            out@ == dash_runs(lower@.take(i as int)),
            last_dash == (i > 0 && !text::is_alphanumeric(lower@[i - 1])),
    {
        assert(lower@.take(i + 1).drop_last() =~= lower@.take(i as int));
        if text::char_is_alphanumeric(lower[i]) {
            out.push(lower[i]);
            last_dash = false;
        } else if !last_dash {
            out.push('-');
            last_dash = true;
        }
    }
    assert(lower@.take(lower@.len() as int) =~= lower@);
    text::trim_cut(out.as_str(), text::Cut::Only('-')).to_owned()
}

/// The characters that a stored file name keeps.
pub open spec fn is_file_char(c: char) -> bool {
    text::is_alphanumeric(c) || c == '-' || c == '_' || c == '.'
}

/// `value` as a file name: what is no letter, digit, dash, underscore or dot
/// is a dash.
pub open spec fn file_name_of(value: Seq<char>) -> Seq<char> {
    value.map_values(
        |c: char|
            if is_file_char(c) {
                c
            } else {
                '-'
            },
    )
}

/// `value` as a file name.
pub fn sanitize_filename(value: &str) -> (r: String)
    ensures
        r@ == file_name_of(value@),
{
    let mut out = String::new();
    for c in it: value.chars()
        invariant
            out@ == file_name_of(it.seq().take(it.index())),
            it.seq() == value@,
    {
        if text::char_is_alphanumeric(c) || c == '-' || c == '_' || c == '.' {
            out.push(c);
        } else {
            out.push('-');
        }
        assert(out@ =~= file_name_of(it.seq().take(it.index() + 1)));
    }
    assert(value@.take(value@.len() as int) =~= value@);
    out
}

/// The bytes that stand for themselves in an address.
pub open spec fn is_unreserved(b: u8) -> bool {
    ||| 0x30 <= b <= 0x39
    ||| 0x41 <= b <= 0x5a
    ||| 0x61 <= b <= 0x7a
    ||| b == 0x2d
    ||| b == 0x5f
    ||| b == 0x2e
    ||| b == 0x7e
}

/// The hexadecimal digit `d`, in capitals.
pub open spec fn hex_digit(d: u8) -> char {
    if d < 10 {
        (0x30 + d) as char
    } else {
        (0x37 + d) as char
    }
}

/// A byte as it stands in an address.
pub open spec fn encode_byte(b: u8) -> Seq<char> {
    if is_unreserved(b) {
        seq![b as char]
    } else {
        seq!['%', hex_digit((b / 16) as u8), hex_digit((b % 16) as u8)]
    }
}

/// Bytes as they stand in an address.
pub open spec fn percent_encoded(bytes: Seq<u8>) -> Seq<char>
    decreases bytes.len(),
{
    if bytes.len() == 0 {
        Seq::empty()
    } else {
        percent_encoded(bytes.drop_last()) + encode_byte(bytes.last())
    }
}

fn hex_char(d: u8) -> (r: char)
    requires
        d < 16,
    ensures
        r == hex_digit(d),
{
    if d < 10 {
        (0x30 + d) as char
    } else {
        (0x37 + d) as char
    }
}

/// A part of a path as it stands in an address: each byte of its UTF-8 form
/// that is not unreserved is written as `%` and two hexadecimal digits.
pub fn percent_encode_path_segment(segment: &str) -> (r: String)
    ensures
        r@ == percent_encoded(vstd::utf8::encode_utf8(segment@)),
{
    let bytes = segment.as_bytes();
    let mut out = String::new();
    let n: usize = bytes.len();
    for i in 0..n
        invariant
            n == bytes@.len(),
            out@ == percent_encoded(bytes@.take(i as int)),
    {
        let b: u8 = bytes[i];
        proof {
            assert(bytes@.take(i + 1).drop_last() =~= bytes@.take(i as int));
        }
        let ghost before = out@;
        if (0x30 <= b && b <= 0x39) || (0x41 <= b && b <= 0x5a) || (0x61 <= b && b <= 0x7a) || b
            == 0x2d || b == 0x5f || b == 0x2e || b == 0x7e {
            out.push(b as char);
            assert(out@ =~= before + encode_byte(b));
        } else {
            out.push('%');
            out.push(hex_char(b / 16));
            out.push(hex_char(b % 16));
            assert(out@ =~= before + encode_byte(b));
        }
    }
    assert(bytes@.take(n as int) =~= bytes@);
    out
}

/// The parts of a path as they stand in an address.
pub open spec fn encode_parts(parts: Seq<Seq<char>>) -> Seq<Seq<char>> {
    parts.map_values(|p: Seq<char>| percent_encoded(vstd::utf8::encode_utf8(p)))
}

/// A path as it stands in an address, with its slashes kept.
pub open spec fn encoded_path(path: Seq<char>) -> Seq<char> {
    text::join(encode_parts(text::split_on(path, '/')), "/"@)
}

/// A path as it stands in an address, with its slashes kept.
pub fn encode_huggingface_path(path: &str) -> (r: String)
    ensures
        r@ == encoded_path(path@),
{
    let parts = text::split_str(path, '/');
    let mut out: Vec<String> = Vec::new();
    for i in 0..parts.len()
        invariant
            out@.len() == i,
            forall|j: int|
                0 <= j < i ==> (#[trigger] out@[j])@ == percent_encoded(
                    vstd::utf8::encode_utf8(parts@[j]@),
                ),
    {
        out.push(percent_encode_path_segment(parts[i].as_str()));
    }
    assert(text::views(out@) =~= encode_parts(text::views(parts@)));
    text::join_strs(&out, "/")
}

// ---------------------------------------------------------------------------
// The profile of a model file
// ---------------------------------------------------------------------------

/// The last part of a path.
pub open spec fn base_name(path: Seq<char>) -> Seq<char> {
    text::split_on(path, '/').last()
}

/// `s` without `.bin` at its end.
pub open spec fn without_bin(s: Seq<char>) -> Seq<char> {
    if text::ends_with(s, ".bin"@) {
        s.take(s.len() - 4)
    } else {
        s
    }
}

/// `typed` without outer white space, or `otherwise` where that is nothing.
pub open spec fn typed_or(typed: Option<Seq<char>>, otherwise: Seq<char>) -> Seq<char> {
    match typed {
        Some(t) => if text::trim(t).len() > 0 {
            text::trim(t)
        } else {
            otherwise
        },
        None => otherwise,
    }
}

/// The profile of the file `filename` of the repository `repo_id`.
pub open spec fn hf_profile(
    repo_id: Seq<char>,
    filename: Seq<char>,
    requested_id: Option<Seq<char>>,
    requested_name: Option<Seq<char>>,
) -> ProfileView {
    let base = base_name(filename);
    ProfileView {
        id: typed_or(
            requested_id,
            "hf-"@ + identifier_of(repo_id) + "-"@ + identifier_of(without_bin(base)),
        ),
        name: typed_or(requested_name, repo_id + " / "@ + base),
        path: "/models/"@ + identifier_of(repo_id) + "-"@ + file_name_of(base),
        url: "https://huggingface.co/"@ + repo_id + "/resolve/main/"@ + encoded_path(filename),
        description: "Hugging Face GGML model: "@ + repo_id + "/"@ + filename,
        recommended_vram_gb: None,
    }
}

fn choose_typed(typed: Option<&str>, otherwise: String) -> (r: String)
    ensures
        r@ == typed_or(text::opt_str_view(typed), otherwise@),
{
    match typed {
        Some(t) => {
            let t = text::trim_str(t);
            if t.is_empty() {
                otherwise
            } else {
                t.to_owned()
            }
        },
        None => otherwise,
    }
}

/// The profile of the file `filename` of the repository `repo_id`, under the
/// requested identifier and name where they are given.
pub fn huggingface_model_profile(
    repo_id: &str,
    filename: &str,
    requested_id: Option<&str>,
    requested_name: Option<&str>,
) -> (r: ModelProfile)
    ensures
        r@ == hf_profile(
            repo_id@,
            filename@,
            text::opt_str_view(requested_id),
            text::opt_str_view(requested_name),
        ),
{
    let parts = text::split_str(filename, '/');
    let basename = parts[parts.len() - 1].as_str();
    assert(basename@ == text::views(parts@).last());
    let stem = if text::ends_with_str(basename, ".bin") {
        proof {
            reveal_strlit(".bin");
        }
        let n: usize = basename.unicode_len();
        take_chars(basename, n - 4)
    } else {
        basename
    };
    let repo_part = sanitize_identifier(repo_id);

    let mut default_id = text::concat3("hf-", repo_part.as_str(), "-");
    default_id.append(sanitize_identifier(stem).as_str());
    let id = choose_typed(requested_id, default_id);
    let name = choose_typed(requested_name, text::concat3(repo_id, " / ", basename));

    let mut path = text::concat3("/models/", repo_part.as_str(), "-");
    path.append(sanitize_filename(basename).as_str());
    let mut url = text::concat3("https://huggingface.co/", repo_id, "/resolve/main/");
    url.append(encode_huggingface_path(filename).as_str());
    let mut description = text::concat3("Hugging Face GGML model: ", repo_id, "/");
    description.append(filename);

    ModelProfile { id, name, path, url, description, recommended_vram_gb: None }
}

/// The address at which the site describes a repository.
pub fn huggingface_api_url(repo_id: &str) -> (r: String)
    ensures
        r@ == "https://huggingface.co/api/models/"@ + repo_id@,
{
    text::concat2("https://huggingface.co/api/models/", repo_id)
}

} // verus!
