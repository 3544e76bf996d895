//! Locating the PDFium shared library.

use vstd::prelude::*;

verus! {

/// The parent directory of `path`, as `std::path::Path::parent` reads it on
/// the target platform.
pub uninterp spec fn parent_of(path: Seq<char>) -> Option<Seq<char>>;

/// `base` joined with `name`, as `std::path::Path::join` builds it on the
/// target platform.
pub uninterp spec fn joined(base: Seq<char>, name: Seq<char>) -> Seq<char>;

/// `std::path::Path::parent`: the path without its final component, or
/// nothing for a root or an empty path. The contract claims only that the
/// result is the one `parent_of` names for the argument.
#[verifier::external_body]
fn path_parent(path: &str) -> (parent: Option<String>)
    ensures
        parent is Some <==> parent_of(path@) is Some,
        parent matches Some(p) ==> parent_of(path@) == Some(p@),
{
    std::path::Path::new(path).parent().map(|p| p.to_string_lossy().into_owned())
}

/// `std::path::Path::join`: `name` appended to `base` as a further path
/// component. The contract claims only that the result is the one `joined`
/// names for the arguments.
#[verifier::external_body]
fn path_join(base: &str, name: &str) -> (path: String)
    ensures
        path@ == joined(base@, name@),
{
    std::path::Path::new(base).join(name).to_string_lossy().into_owned()
}

/// `std::path::Path::is_file`: whether a regular file exists at `path`. It
/// depends on the file system at the time of the call, so nothing is claimed
/// of the result.
#[verifier::external_body]
fn path_is_file(path: &str) -> bool {
    std::path::Path::new(path).is_file()
}

/// The file name of the PDFium library on the operating system `target_os`
/// (named as `std::env::consts::OS` names it).
pub open spec fn spec_library_name(target_os: Seq<char>) -> Seq<char> {
    if target_os == "windows"@ {
        "pdfium.dll"@
    } else if target_os == "macos"@ {
        "libpdfium.dylib"@
    } else {
        "libpdfium.so"@
    }
}

pub fn library_name(target_os: &str) -> (name: &'static str)
    ensures
        name@ == spec_library_name(target_os@),
{
    let os = target_os.to_owned();
    if os == "windows".to_owned() {
        "pdfium.dll"
    } else if os == "macos".to_owned() {
        "libpdfium.dylib"
    } else {
        "libpdfium.so"
    }
}

/// The places searched for the library, in order: the explicit path (or,
/// without one, the path from the environment), then the library's file
/// name next to the running executable.
pub open spec fn spec_candidate_paths(
    explicit_path: Option<Seq<char>>,
    env_path: Option<Seq<char>>,
    current_exe: Seq<char>,
    library_name: Seq<char>,
) -> Seq<Seq<char>> {
    let configured = match explicit_path {
        Some(p) => seq![p],
        None => match env_path {
            Some(p) => seq![p],
            None => Seq::empty(),
        },
    };
    let sibling = match parent_of(current_exe) {
        Some(dir) => seq![joined(dir, library_name)],
        None => Seq::empty(),
    };
    configured + sibling
}

pub open spec fn opt_view(p: Option<&str>) -> Option<Seq<char>> {
    match p {
        Some(s) => Some(s@),
        None => None,
    }
}

pub open spec fn views(paths: Seq<String>) -> Seq<Seq<char>> {
    paths.map_values(|p: String| p@)
}

/// A configured path is searched first: the explicit path when there is
/// one, else the path from the environment; the sibling of the executable
/// comes after it.
pub proof fn law_configured_path_comes_first(
    explicit_path: Option<Seq<char>>,
    env_path: Option<Seq<char>>,
    current_exe: Seq<char>,
    library_name: Seq<char>,
)
    ensures
        ({
            let candidates = spec_candidate_paths(explicit_path, env_path, current_exe, library_name);
            &&& explicit_path matches Some(p) ==> candidates.len() >= 1 && candidates[0] == p
            &&& explicit_path is None ==> (env_path matches Some(p) ==> candidates.len() >= 1
                && candidates[0] == p)
            &&& (explicit_path is None && env_path is None) ==> candidates.len() <= 1
            &&& candidates.len() <= 2
        }),
{
}

pub fn candidate_paths(
    explicit_path: Option<&str>,
    env_path: Option<&str>,
    current_exe: &str,
    library_name: &str,
) -> (candidates: Vec<String>)
    ensures
        views(candidates@) == spec_candidate_paths(
            opt_view(explicit_path),
            opt_view(env_path),
            current_exe@,
            library_name@,
        ),
{
    let mut candidates: Vec<String> = Vec::new();
    let configured = match explicit_path {
        Some(p) => Some(p),
        None => env_path,
    };
    if let Some(path) = configured {
        candidates.push(path.to_owned());
    }
    if let Some(parent) = path_parent(current_exe) {
        candidates.push(path_join(parent.as_str(), library_name));
    }
    assert(views(candidates@) =~= spec_candidate_paths(
        opt_view(explicit_path),
        opt_view(env_path),
        current_exe@,
        library_name@,
    ));
    candidates
}

/// A located PDFium library.
#[derive(Debug, Clone, PartialEq, Eq)]
pub struct PdfiumLibrary {
    path: String,
}

/// No PDFium library was found: the expected file name and every path that
/// was checked.
#[derive(Debug, PartialEq, Eq)]
pub struct PdfiumLibraryError {
    pub expected_name: String,
    pub checked_paths: Vec<String>,
}

impl PdfiumLibrary {
    /// The path of the library file.
    pub closed spec fn location(&self) -> Seq<char> {
        self.path@
    }
}

impl View for PdfiumLibrary {
    type V = Seq<char>;

    open spec fn view(&self) -> Seq<char> {
        self.location()
    }
}

/// The index of the first present candidate at or after `i`.
pub open spec fn first_present(present: Seq<bool>, i: int) -> Option<int>
    decreases present.len() - i,
{
    if i < 0 || i >= present.len() {
        None
    } else if present[i] {
        Some(i)
    } else {
        first_present(present, i + 1)
    }
}

proof fn lemma_first_present(present: Seq<bool>, i: int)
    requires
        0 <= i,
    ensures
        first_present(present, i) matches Some(k) ==> i <= k < present.len() && present[k],
        first_present(present, i) is None ==> forall|j: int| i <= j < present.len() ==> !present[j],
    decreases present.len() - i,
{
    if i < present.len() && !present[i] {
        lemma_first_present(present, i + 1);
    }
}

impl PdfiumLibrary {
    /// The library at the first candidate that is present, or an error
    /// listing every candidate.
    pub fn select(candidates: Vec<String>, present: &Vec<bool>, library_name: &str) -> (found:
        Result<Self, PdfiumLibraryError>)
        requires
            present@.len() == candidates@.len(),
        ensures
            match first_present(present@, 0) {
                Some(k) => found matches Ok(library) && library@ == candidates@[k]@,
                None => found matches Err(error) && error.expected_name@ == library_name@ && views(
                    error.checked_paths@,
                ) == views(candidates@),
            },
    {
        let mut index: usize = 0;
        while index < candidates.len()
            invariant
                present@.len() == candidates@.len(),
                index <= candidates@.len(),
                first_present(present@, 0) == first_present(present@, index as int),
            decreases candidates@.len() - index,
        {
            if present[index] {
                return Ok(PdfiumLibrary { path: candidates[index].clone() });
            }
            index = index + 1;
        }
        Err(PdfiumLibraryError { expected_name: library_name.to_owned(), checked_paths: candidates })
    }

    /// Finds the PDFium library: the explicit path or else the path from the
    /// environment, then the platform's library file next to the executable;
    /// the first of these that is a file wins.
    pub fn resolve(
        explicit_path: Option<&str>,
        env_path: Option<&str>,
        current_exe: &str,
        target_os: &str,
    ) -> (found: Result<Self, PdfiumLibraryError>)
        ensures
            ({
                let candidates = spec_candidate_paths(
                    opt_view(explicit_path),
                    opt_view(env_path),
                    current_exe@,
                    spec_library_name(target_os@),
                );
                match found {
                    Ok(library) => candidates.contains(library@),
                    Err(error) => error.expected_name@ == spec_library_name(target_os@) && views(
                        error.checked_paths@,
                    ) == candidates,
                }
            }),
    {
        let name = library_name(target_os);
        let candidates = candidate_paths(explicit_path, env_path, current_exe, name);
        let mut present: Vec<bool> = Vec::new();
        let mut index: usize = 0;
        while index < candidates.len()
            invariant
                index <= candidates@.len(),
                present@.len() == index,
            decreases candidates@.len() - index,
        {
            present.push(path_is_file(candidates[index].as_str()));
            index = index + 1;
        }
        proof {
            lemma_first_present(present@, 0);
        }
        let found = Self::select(candidates, &present, name);
        proof {
            if found is Ok {
                let k = first_present(present@, 0)->0;
                assert(views(candidates@)[k] == found->Ok_0@);
            }
        }
        found
    }

    pub fn path(&self) -> (path: &str)
        ensures
            path@ == self@,
    {
        self.path.as_str()
    }
}

/// How a missing library is reported.
pub open spec fn checked_paths_text(paths: Seq<Seq<char>>) -> Seq<char>
    decreases paths.len(),
{
    if paths.len() == 0 {
        Seq::empty()
    } else {
        checked_paths_text(paths.drop_last()) + "\n  "@ + paths.last()
    }
}

impl PdfiumLibraryError {
    pub open spec fn spec_message(&self) -> Seq<char> {
        "could not find "@ + self.expected_name@ + " in:"@ + checked_paths_text(
            views(self.checked_paths@),
        )
    }

    /// The error message: the expected file name, then each checked path on
    /// a line of its own.
    pub fn message(&self) -> (text: String)
        ensures
            text@ == self.spec_message(),
    {
        let mut text = String::new();
        text.append("could not find ");
        text.append(self.expected_name.as_str());
        text.append(" in:");
        let mut index: usize = 0;
        while index < self.checked_paths.len()
            invariant
                index <= self.checked_paths@.len(),
                text@ == "could not find "@ + self.expected_name@ + " in:"@ + checked_paths_text(
                    views(self.checked_paths@).take(index as int),
                ),
            decreases self.checked_paths@.len() - index,
        {
            let ghost before = text@;
            text.append("\n  ");
            text.append(self.checked_paths[index].as_str());
            proof {
                assert(views(self.checked_paths@).take(index + 1).drop_last() =~= views(
                    self.checked_paths@,
                ).take(index as int));
                assert(text@ =~= before + "\n  "@ + self.checked_paths@[index as int]@);
            }
            index = index + 1;
        }
        assert(views(self.checked_paths@).take(self.checked_paths@.len() as int) =~= views(
            self.checked_paths@,
        ));
        text
    }
}

} // verus!
