use vstd::prelude::*;

verus! {

/// Content hash of a file patch.
#[derive(Clone, Debug, PartialEq, Eq, Hash)]
pub struct PatchId(String);

/// A change id in its textual form.
#[derive(Clone, Debug, PartialEq, Eq, Hash)]
pub struct ChangeId(String);

/// GitHub's node id of a repository.
#[derive(Clone, Debug, PartialEq, Eq, Hash)]
pub struct GhRepoId(String);

impl View for PatchId {
    type V = Seq<char>;

    closed spec fn view(&self) -> Seq<char> {
        self.0@
    }
}

impl View for ChangeId {
    type V = Seq<char>;

    closed spec fn view(&self) -> Seq<char> {
        self.0@
    }
}

impl View for GhRepoId {
    type V = Seq<char>;

    closed spec fn view(&self) -> Seq<char> {
        self.0@
    }
}

impl PatchId {
    pub fn as_str(&self) -> (r: &str)
        ensures
            r@ == self@,
    {
        self.0.as_str()
    }
}

impl ChangeId {
    pub fn as_str(&self) -> (r: &str)
        ensures
            r@ == self@,
    {
        self.0.as_str()
    }
}

impl GhRepoId {
    pub fn as_str(&self) -> (r: &str)
        ensures
            r@ == self@,
    {
        self.0.as_str()
    }
}

impl From<String> for PatchId {
    fn from(value: String) -> (r: Self)
        ensures
            r@ == value@,
    {
        PatchId(value)
    }
}

impl vstd::std_specs::convert::FromSpecImpl<String> for PatchId {
    open spec fn obeys_from_spec() -> bool {
        true
    }

    closed spec fn from_spec(v: String) -> Self {
        PatchId(v)
    }
}

impl From<PatchId> for String {
    fn from(value: PatchId) -> (r: Self)
        ensures
            r@ == value@,
    {
        value.0
    }
}

impl vstd::std_specs::convert::FromSpecImpl<PatchId> for String {
    open spec fn obeys_from_spec() -> bool {
        true
    }

    closed spec fn from_spec(v: PatchId) -> Self {
        v.0
    }
}

impl From<String> for ChangeId {
    fn from(value: String) -> (r: Self)
        ensures
            r@ == value@,
    {
        ChangeId(value)
    }
}

impl vstd::std_specs::convert::FromSpecImpl<String> for ChangeId {
    open spec fn obeys_from_spec() -> bool {
        true
    }

    closed spec fn from_spec(v: String) -> Self {
        ChangeId(v)
    }
}

impl From<ChangeId> for String {
    fn from(value: ChangeId) -> (r: Self)
        ensures
            r@ == value@,
    {
        value.0
    }
}

impl vstd::std_specs::convert::FromSpecImpl<ChangeId> for String {
    open spec fn obeys_from_spec() -> bool {
        true
    }

    closed spec fn from_spec(v: ChangeId) -> Self {
        v.0
    }
}

impl From<String> for GhRepoId {
    fn from(value: String) -> (r: Self)
        ensures
            r@ == value@,
    {
        GhRepoId(value)
    }
}

impl vstd::std_specs::convert::FromSpecImpl<String> for GhRepoId {
    open spec fn obeys_from_spec() -> bool {
        true
    }

    closed spec fn from_spec(v: String) -> Self {
        GhRepoId(v)
    }
}

impl From<GhRepoId> for String {
    fn from(value: GhRepoId) -> (r: Self)
        ensures
            r@ == value@,
    {
        value.0
    }
}

impl vstd::std_specs::convert::FromSpecImpl<GhRepoId> for String {
    open spec fn obeys_from_spec() -> bool {
        true
    }

    closed spec fn from_spec(v: GhRepoId) -> Self {
        v.0
    }
}

} // verus!
