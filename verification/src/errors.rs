//! Error taxonomy for the manifest and orchestration core.
//!
//! Every failure the library can report is one of these variants; collaborator
//! failures (installer, version control, filesystem) carry the collaborator's
//! own diagnostic text, and `describe` surfaces it.

use vstd::prelude::*;
use vstd::string::*;

verus! {

/// All errors surfaced by the library.
#[derive(Debug, Clone)]
pub enum HuakError {
    /// The persisted manifest text is not well-formed structured data.
    ManifestFormatError,
    /// The manifest text is well-formed but a required field is absent or
    /// has the wrong shape.
    ManifestSchemaError,
    /// An operation expected an existing manifest and found none.
    ProjectNotFoundError,
    /// A remove targeted a dependency that is not in the manifest.
    DependencyNotFoundError,
    /// A dependency requirement string has an empty name portion.
    InvalidSpecifierError,
    /// A filesystem operation failed; carries the reported cause.
    IOError(String),
    /// The external package installer failed; carries its diagnostic text.
    InstallerError(String),
    /// The external version-control tool failed; carries its diagnostic text.
    VcsError(String),
}

pub type HuakResult<T> = Result<T, HuakError>;

/// A line break of `s`, which a single-line message must not carry.
pub open spec fn is_break(c: char) -> bool {
    c == '\n' || c == '\r'
}

/// `s` with every line break replaced by a space, from index `i` on.
pub open spec fn spec_one_line(s: Seq<char>, i: int) -> Seq<char>
    decreases s.len() - i,
{
    if i < 0 || i >= s.len() {
        Seq::empty()
    } else {
        seq![
            if is_break(s[i]) {
                ' '
            } else {
                s[i]
            },
        ] + spec_one_line(s, i + 1)
    }
}

/// Over a run without line breaks, the flattening is the identity.
proof fn lemma_one_line_plain_run(s: Seq<char>, i: int, j: int)
    requires
        0 <= i <= j <= s.len(),
        forall|m: int| i <= m < j ==> !is_break(s[m]),
    ensures
        spec_one_line(s, i) == s.subrange(i, j) + spec_one_line(s, j),
    decreases j - i,
{
    if i < j {
        lemma_one_line_plain_run(s, i + 1, j);
        assert(s.subrange(i, j) =~= seq![s[i]] + s.subrange(i + 1, j));
        assert(spec_one_line(s, i) =~= s.subrange(i, j) + spec_one_line(s, j));
    } else {
        assert(spec_one_line(s, i) =~= s.subrange(i, i) + spec_one_line(s, i));
    }
}

/// The flattened text holds no line break.
proof fn lemma_one_line_no_breaks(s: Seq<char>, i: int)
    requires
        0 <= i,
    ensures
        forall|j: int| 0 <= j < spec_one_line(s, i).len() ==> !is_break(
            #[trigger] spec_one_line(s, i)[j],
        ),
    decreases s.len() - i,
{
    if i < s.len() {
        lemma_one_line_no_breaks(s, i + 1);
        let h = seq![
            if is_break(s[i]) {
                ' '
            } else {
                s[i]
            },
        ];
        assert forall|j: int| 0 <= j < spec_one_line(s, i).len() implies !is_break(
            spec_one_line(s, i)[j],
        ) by {
            assert(spec_one_line(s, i) == h + spec_one_line(s, i + 1));
            if j == 0 {
                assert(spec_one_line(s, i)[j] == h[0]);
            } else {
                assert(spec_one_line(s, i)[j] == spec_one_line(s, i + 1)[j - 1]);
            }
        }
    }
}

/// Flattens a diagnostic to one line.
fn one_line(s: &str) -> (r: String)
    ensures
        r@ == spec_one_line(s@, 0),
{
    let n = s.unicode_len();
    let mut out = String::new();
    let mut i: usize = 0;
    let mut j: usize = 0;
    while j < n
        invariant
            i <= j <= n,
            n == s@.len(),
            out@ + spec_one_line(s@, i as int) == spec_one_line(s@, 0),
            forall|m: int| i <= m < j ==> !is_break(s@[m]),
        decreases n - j,
    {
        let c = s.get_char(j);
        if c == '\n' || c == '\r' {
            proof {
                lemma_one_line_plain_run(s@, i as int, j as int);
            }
            let ghost before = out@;
            out.append(s.substring_char(i, j));
            out.append(" ");
            proof {
                reveal_strlit(" ");
                assert(out@ =~= before + (s@.subrange(i as int, j as int) + seq![' ']));
                assert(out@ + spec_one_line(s@, j as int + 1) =~= before + spec_one_line(
                    s@,
                    i as int,
                ));
            }
            i = j + 1;
            j = j + 1;
        } else {
            j = j + 1;
        }
    }
    proof {
        lemma_one_line_plain_run(s@, i as int, n as int);
        assert(spec_one_line(s@, n as int) == Seq::<char>::empty());
    }
    out.append(s.substring_char(i, n));
    proof {
        assert(out@ =~= spec_one_line(s@, 0));
    }
    out
}

/// The message each error kind maps to: a fixed text per kind, with the
/// collaborator's own diagnostic appended, flattened to one line, for the
/// kinds that carry one. No kind is swallowed into a generic text.
pub open spec fn spec_describe(e: HuakError) -> Seq<char> {
    match e {
        HuakError::ManifestFormatError => "failed to parse the manifest file"@,
        HuakError::ManifestSchemaError => (
        "the manifest file is missing a required field or a field has the wrong type")@,
        HuakError::ProjectNotFoundError => "no manifest file was found for the project"@,
        HuakError::DependencyNotFoundError => "the dependency is not listed in the manifest"@,
        HuakError::InvalidSpecifierError => "the dependency specifier has an empty name"@,
        HuakError::IOError(m) => "a file could not be read or written: "@ + spec_one_line(m@, 0),
        HuakError::InstallerError(m) => "the package installer reported a failure: "@
            + spec_one_line(m@, 0),
        HuakError::VcsError(m) => "version control could not be initialized: "@ + spec_one_line(
            m@,
            0,
        ),
    }
}

impl HuakError {
    /// A single-line human-readable description, for the CLI to print:
    /// exactly the text `spec_describe` assigns to the kind, never empty and
    /// never spanning lines.
    pub fn describe(&self) -> (r: String)
        ensures
            r@ == spec_describe(*self),
            r@.len() > 0,
            forall|i: int| 0 <= i < r@.len() ==> r@[i] != '\n',
    {
        let r = match self {
            HuakError::ManifestFormatError => "failed to parse the manifest file".to_owned(),
            HuakError::ManifestSchemaError => (
            "the manifest file is missing a required field or a field has the wrong type").to_owned(),
            HuakError::ProjectNotFoundError => "no manifest file was found for the project".to_owned(),
            HuakError::DependencyNotFoundError => "the dependency is not listed in the manifest".to_owned(),
            HuakError::InvalidSpecifierError => "the dependency specifier has an empty name".to_owned(),
            HuakError::IOError(m) => {
                let mut t = String::from_str("a file could not be read or written: ");
                t.append(one_line(m.as_str()).as_str());
                t
            },
            HuakError::InstallerError(m) => {
                let mut t = String::from_str("the package installer reported a failure: ");
                t.append(one_line(m.as_str()).as_str());
                t
            },
            HuakError::VcsError(m) => {
                let mut t = String::from_str("version control could not be initialized: ");
                t.append(one_line(m.as_str()).as_str());
                t
            },
        };
        proof {
            reveal_strlit("failed to parse the manifest file");
            reveal_strlit(
                "the manifest file is missing a required field or a field has the wrong type");
            reveal_strlit("no manifest file was found for the project");
            reveal_strlit("the dependency is not listed in the manifest");
            reveal_strlit("the dependency specifier has an empty name");
            reveal_strlit("a file could not be read or written: ");
            reveal_strlit("the package installer reported a failure: ");
            reveal_strlit("version control could not be initialized: ");
            match self {
                HuakError::IOError(m) => {
                    lemma_one_line_no_breaks(m@, 0);
                },
                HuakError::InstallerError(m) => {
                    lemma_one_line_no_breaks(m@, 0);
                },
                HuakError::VcsError(m) => {
                    lemma_one_line_no_breaks(m@, 0);
                },
                _ => {},
            }
        }
        r
    }
}

} // verus!
