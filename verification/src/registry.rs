//! The registry of loaded extensions, and the ways an invocation can fail.
//!
//! A registry is a value: it is made once from the manifests that discovery
//! found, in the order in which it found them, and only read afterwards. A
//! name is looked up from the front, so of two manifests with one name the
//! one that was found first is the one that answers.

use vstd::prelude::*;
use vstd::string::*;
use crate::json::Json;
use crate::json::JsonValue;
use crate::manifest::ExtensionManifest;
use crate::text::text_eq;

verus! {

/// What the daemon answered to one request.
#[derive(Debug, Clone, PartialEq)]
pub struct Response {
    /// Whether the daemon carried the request out.
    pub success: bool,
    /// Whatever else the answer holds; the engine hands it on unread.
    pub payload: JsonValue,
}

/// A daemon answer as a mathematical value.
pub struct ResponseView {
    pub success: bool,
    pub payload: Json,
}

impl View for Response {
    type V = ResponseView;

    open spec fn view(&self) -> ResponseView {
        ResponseView { success: self.success, payload: self.payload@ }
    }
}

/// Why an invocation did not end in a successful response.
#[derive(Debug, Clone, PartialEq)]
pub enum ExtensionError {
    /// The invocation has the wrong shape: an unknown subcommand, a wrong
    /// number of arguments, a handler that cannot be run.
    InvalidInvocation { message: String, usage: String },
    /// A token could not be read as the type its argument declares.
    InvalidValue { message: String, usage: String },
    /// The request did not reach the daemon, or no answer came back.
    Io { message: String },
    /// The daemon answered that it failed; the answer is handed on as it is.
    CommandFailed { response: Response },
}

/// A failure as a mathematical value.
pub enum ExtensionErrorView {
    InvalidInvocation { message: Seq<char>, usage: Seq<char> },
    InvalidValue { message: Seq<char>, usage: Seq<char> },
    Io { message: Seq<char> },
    CommandFailed { response: ResponseView },
}

impl View for ExtensionError {
    type V = ExtensionErrorView;

    open spec fn view(&self) -> ExtensionErrorView {
        match self {
            ExtensionError::InvalidInvocation { message, usage } => {
                ExtensionErrorView::InvalidInvocation { message: message@, usage: usage@ }
            },
            ExtensionError::InvalidValue { message, usage } => ExtensionErrorView::InvalidValue {
                message: message@,
                usage: usage@,
            },
            ExtensionError::Io { message } => ExtensionErrorView::Io { message: message@ },
            ExtensionError::CommandFailed { response } => ExtensionErrorView::CommandFailed {
                response: response@,
            },
        }
    }
}

/// The position of the first manifest in `manifests` named `name`, or the
/// length of `manifests` where none bears the name.
pub open spec fn first_named(manifests: Seq<ExtensionManifest>, name: Seq<char>) -> int
    decreases manifests.len(),
{
    if manifests.len() == 0 {
        0
    } else if manifests[0].name@ == name {
        0
    } else {
        1 + first_named(manifests.skip(1), name)
    }
}

/// The first manifest in `manifests` named `name`.
pub open spec fn found(manifests: Seq<ExtensionManifest>, name: Seq<char>) -> Option<
    ExtensionManifest,
> {
    if first_named(manifests, name) < manifests.len() {
        Some(manifests[first_named(manifests, name)])
    } else {
        None
    }
}

/// `first_named` is in range, names a manifest of that name where it is
/// below the length, and no manifest before it bears the name.
pub proof fn lemma_first_named(manifests: Seq<ExtensionManifest>, name: Seq<char>)
    ensures
        0 <= first_named(manifests, name) <= manifests.len(),
        first_named(manifests, name) < manifests.len() ==> manifests[first_named(
            manifests,
            name,
        )].name@ == name,
        forall|j: int|
            0 <= j < first_named(manifests, name) ==> (#[trigger] manifests[j]).name@ != name,
    decreases manifests.len(),
{
    if manifests.len() > 0 && manifests[0].name@ != name {
        let rest = manifests.skip(1);
        lemma_first_named(rest, name);
        assert forall|j: int| 0 <= j < first_named(manifests, name) implies (
        #[trigger] manifests[j]).name@ != name by {
            if j > 0 {
                assert(rest[j - 1] == manifests[j]);
            }
        }
    }
}

/// In a list made of two, the first manifest of a name is the first one in
/// the front part, and the first one in the back part where the front part
/// has none.
pub proof fn lemma_first_named_concat(
    earlier: Seq<ExtensionManifest>,
    later: Seq<ExtensionManifest>,
    name: Seq<char>,
)
    ensures
        first_named(earlier + later, name) == if first_named(earlier, name) < earlier.len() {
            first_named(earlier, name)
        } else {
            earlier.len() + first_named(later, name)
        },
    decreases earlier.len(),
{
    let all = earlier + later;
    if earlier.len() == 0 {
        assert(all == later);
    } else {
        assert(all[0] == earlier[0]);
        if earlier[0].name@ != name {
            assert(all.skip(1) == earlier.skip(1) + later);
            lemma_first_named_concat(earlier.skip(1), later, name);
        }
    }
}

/// Discovery precedence: where the manifests of an earlier root are
/// followed by those of a later one, a name is answered from the earlier
/// root whenever that root holds it, and from the later root only where the
/// earlier one does not.
pub proof fn lemma_found_prefers_earlier(
    earlier: Seq<ExtensionManifest>,
    later: Seq<ExtensionManifest>,
    name: Seq<char>,
)
    ensures
        found(earlier + later, name) == if found(earlier, name) is Some {
            found(earlier, name)
        } else {
            found(later, name)
        },
{
    lemma_first_named_concat(earlier, later, name);
    lemma_first_named(earlier, name);
    lemma_first_named(later, name);
}

/// The extensions known to one run of the tool.
pub struct ExtensionRegistry {
    extensions: Vec<ExtensionManifest>,
}

impl View for ExtensionRegistry {
    type V = Seq<ExtensionManifest>;

    /// The loaded manifests in discovery order.
    closed spec fn view(&self) -> Seq<ExtensionManifest> {
        self.extensions@
    }
}

impl ExtensionRegistry {
    /// Makes the registry of the manifests that discovery found, which come
    /// in the order in which it found them.
    pub fn load(manifests: Vec<ExtensionManifest>) -> (r: ExtensionRegistry)
        ensures
            r@ == manifests@,
    {
        ExtensionRegistry { extensions: manifests }
    }

    /// Every loaded manifest, in discovery order.
    pub fn list(&self) -> (r: Vec<&ExtensionManifest>)
        ensures
            r@.len() == self@.len(),
            forall|i: int| 0 <= i < r@.len() ==> *(#[trigger] r@[i]) == self@[i],
    {
        let mut out: Vec<&ExtensionManifest> = Vec::new();
        let mut i: usize = 0;
        while i < self.extensions.len()
            invariant
                i <= self.extensions.len(),
                out@.len() == i,
                forall|j: int| 0 <= j < i ==> *(#[trigger] out@[j]) == self.extensions@[j],
            decreases self.extensions.len() - i,
        {
            out.push(&self.extensions[i]);
            i += 1;
        }
        out
    }

    /// The first loaded manifest named `name`.
    pub fn find(&self, name: &str) -> (r: Option<&ExtensionManifest>)
        ensures
            match r {
                Some(m) => found(self@, name@) == Some(*m),
                None => found(self@, name@) is None,
            },
    {
        let mut i: usize = 0;
        assert(self@.skip(0) == self@);
        while i < self.extensions.len()
            invariant
                i <= self.extensions.len(),
                first_named(self@, name@) == i + first_named(self@.skip(i as int), name@),
            decreases self.extensions.len() - i,
        {
            assert(self@.skip(i as int)[0] == self@[i as int]);
            if text_eq(self.extensions[i].name.as_str(), name) {
                return Some(&self.extensions[i]);
            }
            assert(self@.skip(i as int).skip(1) == self@.skip(i + 1));
            i += 1;
        }
        None
    }
}

} // verus!
