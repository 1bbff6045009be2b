//! What the library reads of a package and of the workspace it lives in.

use crate::text::{opt_text, same_text, texts};
use vstd::prelude::*;

verus! {

/// The metadata of one package, as the build tool reports it.
#[derive(Clone, Debug, PartialEq, Eq)]
pub struct PackageInfo {
    /// The identifier the build tool gave the package.
    pub id: String,
    /// The package's name.
    pub name: String,
    /// The directory that holds the package's manifest.
    pub manifest_dir: String,
    /// The version, written out in full.
    pub version: String,
    /// The version's major part.
    pub version_major: u64,
    /// The version's minor part.
    pub version_minor: u64,
    /// The version's patch part.
    pub version_patch: u64,
    /// The version's pre-release part, empty where it has none.
    pub version_pre: String,
    /// The authors, in the order of the manifest.
    pub authors: Vec<String>,
    /// The description.
    pub description: Option<String>,
    /// The homepage.
    pub homepage: Option<String>,
    /// The license expression.
    pub license: Option<String>,
    /// The path of the license file.
    pub license_file: Option<String>,
    /// The repository.
    pub repository: Option<String>,
    /// Whether the package is a procedural macro.
    pub is_proc_macro: bool,
}

/// The model of a `PackageInfo`. What a package does not state is the empty
/// text here.
pub struct PackageInfoView {
    /// The identifier the build tool gave the package.
    pub id: Seq<char>,
    /// The package's name.
    pub name: Seq<char>,
    /// The directory that holds the package's manifest.
    pub manifest_dir: Seq<char>,
    /// The version, written out in full.
    pub version: Seq<char>,
    /// The version's major part.
    pub version_major: nat,
    /// The version's minor part.
    pub version_minor: nat,
    /// The version's patch part.
    pub version_patch: nat,
    /// The version's pre-release part.
    pub version_pre: Seq<char>,
    /// The authors, in the order of the manifest.
    pub authors: Seq<Seq<char>>,
    /// The description.
    pub description: Option<Seq<char>>,
    /// The homepage.
    pub homepage: Option<Seq<char>>,
    /// The license expression.
    pub license: Option<Seq<char>>,
    /// The path of the license file.
    pub license_file: Option<Seq<char>>,
    /// The repository.
    pub repository: Option<Seq<char>>,
    /// Whether the package is a procedural macro.
    pub is_proc_macro: bool,
}

impl View for PackageInfo {
    type V = PackageInfoView;

    open spec fn view(&self) -> PackageInfoView {
        PackageInfoView {
            id: self.id@,
            name: self.name@,
            manifest_dir: self.manifest_dir@,
            version: self.version@,
            version_major: self.version_major as nat,
            version_minor: self.version_minor as nat,
            version_patch: self.version_patch as nat,
            version_pre: self.version_pre@,
            authors: texts(self.authors@),
            description: opt_text(self.description),
            homepage: opt_text(self.homepage),
            license: opt_text(self.license),
            license_file: opt_text(self.license_file),
            repository: opt_text(self.repository),
            is_proc_macro: self.is_proc_macro,
        }
    }
}

/// A copy of an optional string.
pub fn copy_opt(s: &Option<String>) -> (copy: Option<String>)
    ensures
        copy == *s,
{
    match s {
        Some(t) => Some(t.clone()),
        None => None,
    }
}

/// Copies of `strings`.
pub fn copy_strings(strings: &Vec<String>) -> (copy: Vec<String>)
    ensures
        texts(copy@) == texts(strings@),
        copy@ == strings@,
{
    let mut copy: Vec<String> = Vec::new();
    let mut i: usize = 0;
    while i < strings.len()
        invariant
            i <= strings.len(),
            copy@ == strings@.take(i as int),
        decreases strings.len() - i,
    {
        copy.push(strings[i].clone());
        assert(copy@ =~= strings@.take(i + 1));
        i = i + 1;
    }
    assert(strings@.take(strings.len() as int) == strings@);
    copy
}

impl PackageInfo {
    /// A copy of this metadata.
    pub fn duplicate(&self) -> (copy: Self)
        ensures
            copy@ == self@,
    {
        PackageInfo {
            id: self.id.clone(),
            name: self.name.clone(),
            manifest_dir: self.manifest_dir.clone(),
            version: self.version.clone(),
            version_major: self.version_major,
            version_minor: self.version_minor,
            version_patch: self.version_patch,
            version_pre: self.version_pre.clone(),
            authors: copy_strings(&self.authors),
            description: copy_opt(&self.description),
            homepage: copy_opt(&self.homepage),
            license: copy_opt(&self.license),
            license_file: copy_opt(&self.license_file),
            repository: copy_opt(&self.repository),
            is_proc_macro: self.is_proc_macro,
        }
    }
}

/// The packages of a workspace, to be looked up by identifier.
#[derive(Clone, Debug)]
pub struct PackageIndex {
    /// The root directory of the workspace at build time.
    pub workspace_root: String,
    /// The packages. Where two carry one identifier, the first is found.
    pub packages: Vec<PackageInfo>,
}

/// The position of the first package of `packages` whose identifier is `id`,
/// or the length of `packages` where there is none.
pub open spec fn first_with_id(packages: Seq<PackageInfo>, id: Seq<char>) -> int
    decreases packages.len(),
{
    if packages.len() == 0 {
        0
    } else if packages[0].id@ == id {
        0
    } else {
        1 + first_with_id(packages.drop_first(), id)
    }
}

/// The first package of `packages` whose identifier is `id`.
pub open spec fn package_with_id(packages: Seq<PackageInfo>, id: Seq<char>) -> Option<PackageInfo> {
    let i = first_with_id(packages, id);
    if 0 <= i < packages.len() {
        Some(packages[i])
    } else {
        None
    }
}

/// `first_with_id` is the least position whose package carries `id`.
pub proof fn lemma_first_with_id(packages: Seq<PackageInfo>, id: Seq<char>)
    ensures
        0 <= first_with_id(packages, id) <= packages.len(),
        first_with_id(packages, id) < packages.len() ==> packages[first_with_id(packages, id)].id@
            == id,
        forall|j: int| 0 <= j < first_with_id(packages, id) ==> (#[trigger] packages[j]).id@ != id,
    decreases packages.len(),
{
    if packages.len() > 0 && packages[0].id@ != id {
        let rest = packages.drop_first();
        lemma_first_with_id(rest, id);
        assert forall|j: int| 0 <= j < first_with_id(packages, id) implies (
        #[trigger] packages[j]).id@ != id by {
            if j > 0 {
                assert(packages[j] == rest[j - 1]);
            }
        }
    }
}

/// A position is `first_with_id` once it carries `id` and nothing before it does.
pub proof fn lemma_first_with_id_is(packages: Seq<PackageInfo>, id: Seq<char>, p: int)
    requires
        0 <= p <= packages.len(),
        p < packages.len() ==> packages[p].id@ == id,
        forall|j: int| 0 <= j < p ==> (#[trigger] packages[j]).id@ != id,
    ensures
        first_with_id(packages, id) == p,
    decreases packages.len(),
{
    if packages.len() > 0 && p > 0 {
        let rest = packages.drop_first();
        assert(packages[0].id@ != id);
        assert forall|j: int| 0 <= j < p - 1 implies (#[trigger] rest[j]).id@ != id by {
            assert(rest[j] == packages[j + 1]);
        }
        lemma_first_with_id_is(rest, id, p - 1);
    }
}

impl PackageIndex {
    /// The metadata of the package whose identifier is `package_id`, or
    /// `None` where the workspace knows no such package.
    pub fn metadata(&self, package_id: &str) -> (found: Option<&PackageInfo>)
        ensures
            match found {
                Some(p) => package_with_id(self.packages@, package_id@) == Some(*p),
                None => package_with_id(self.packages@, package_id@) is None,
            },
    {
        let mut i: usize = 0;
        while i < self.packages.len()
            invariant
                i <= self.packages.len(),
                forall|j: int| 0 <= j < i ==> (#[trigger] self.packages@[j]).id@ != package_id@,
            decreases self.packages.len() - i,
        {
            if same_text(self.packages[i].id.as_str(), package_id) {
                proof {
                    lemma_first_with_id_is(self.packages@, package_id@, i as int);
                }
                return Some(&self.packages[i]);
            }
            i = i + 1;
        }
        proof {
            lemma_first_with_id_is(self.packages@, package_id@, i as int);
        }
        None
    }
}

} // verus!
