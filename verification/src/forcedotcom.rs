//! The manifest model — members, type groups, the package document — and its
//! rendering to the fixed `destructiveChanges.xml` text form.
use vstd::prelude::*;

verus! {

/// Manifest version written when the caller supplies none.
pub const DEFAULT_API_VERSION: &'static str = "39.0";

/// A single component identifier scoped to one metadata type.
#[derive(Debug)]
pub struct Members(pub String);

/// One block of the manifest: a metadata type name with the component
/// identifiers of that type, in the order they were first seen.
#[derive(Debug)]
pub struct Types {
    pub members: Vec<Members>,
    pub name: String,
}

/// The whole manifest: its type groups and the version tag it renders with.
#[derive(Debug)]
pub struct Package {
    pub types: Vec<Types>,
    pub version: String,
}

/// Mathematical form of one type group.
#[verifier::ext_equal]
pub struct TypeGroupModel {
    pub name: Seq<char>,
    pub members: Seq<Seq<char>>,
}

/// Mathematical form of the whole manifest.
#[verifier::ext_equal]
pub struct PackageModel {
    pub version: Seq<char>,
    pub types: Seq<TypeGroupModel>,
}

impl View for Members {
    type V = Seq<char>;

    open spec fn view(&self) -> Seq<char> {
        self.0@
    }
}

impl View for Types {
    type V = TypeGroupModel;

    open spec fn view(&self) -> TypeGroupModel {
        TypeGroupModel { name: self.name@, members: self.members@.map_values(|m: Members| m@) }
    }
}

impl View for Package {
    type V = PackageModel;

    open spec fn view(&self) -> PackageModel {
        PackageModel {
            version: self.version@,
            types: self.types@.map_values(|t: Types| t@),
        }
    }
}

impl Clone for Members {
    fn clone(&self) -> (r: Self)
        ensures
            r@ == self@,
    {
        Members(self.0.clone())
    }
}

impl Members {
    /// Creates `Members` struct from `String`.
    pub fn from(member: String) -> (m: Self)
        ensures
            m@ == member@,
    {
        Members(member)
    }
}

impl Types {
    /// Creates a new `Types` struct with the `name` provided.
    pub fn new(name: &str) -> (t: Self)
        ensures
            t@.name == name@,
            t@.members == Seq::<Seq<char>>::empty(),
    {
        let t = Types { name: name.to_owned(), members: Vec::new() };
        proof {
            assert(t@.members =~= Seq::<Seq<char>>::empty());
        }
        t
    }
}

impl Package {
    /// Creates a new `Package` struct.  Optionally allows a Salesforce API
    /// version to be set using `version`.  If this is `None`, the module
    /// `DEFAULT_API_VERSION` version value is used.
    pub fn new(version: Option<&str>) -> (p: Self)
        ensures
            p@.types == Seq::<TypeGroupModel>::empty(),
            p@.version == spec_version_of(version),
    {
        let p = Package {
            types: Vec::new(),
            version: match version {
                Some(v) => v.to_owned(),
                None => DEFAULT_API_VERSION.to_owned(),
            },
        };
        proof {
            assert(p@.types =~= Seq::<TypeGroupModel>::empty());
        }
        p
    }
}

/// The version tag a manifest carries for a caller-supplied option: the given
/// value, or the default constant when none was given.
pub open spec fn spec_version_of(version: Option<&str>) -> Seq<char> {
    match version {
        Some(v) => v@,
        None => DEFAULT_API_VERSION@,
    }
}

/// The rendered `<members/>` leaf of one component identifier.
pub open spec fn spec_members_xml(m: Seq<char>) -> Seq<char> {
    "        <members>"@ + m + "</members>"@
}

/// Lines joined by single newlines, with none at either end.
pub open spec fn join_lines(xs: Seq<Seq<char>>) -> Seq<char>
    decreases xs.len(),
{
    if xs.len() == 0 {
        Seq::empty()
    } else if xs.len() == 1 {
        xs[0]
    } else {
        join_lines(xs.drop_last()) + "\n"@ + xs.last()
    }
}

/// The rendered `<types/>` block of one type group.
pub open spec fn spec_types_xml(t: TypeGroupModel) -> Seq<char> {
    "    <types>\n"@ + join_lines(t.members.map_values(|m: Seq<char>| spec_members_xml(m)))
        + "\n        <name>"@ + t.name + "</name>\n    </types>"@
}

/// The rendered `<Package/>` document of a whole manifest.
pub open spec fn spec_package_xml(p: PackageModel) -> Seq<char> {
    "<?xml version=\"1.0\" encoding=\"UTF-8\"?>\n<Package xmlns=\"http://soap.sforce.com/2006/04/metadata\">\n"@
        + join_lines(p.types.map_values(|t: TypeGroupModel| spec_types_xml(t)))
        + "\n    <version>"@ + p.version + "</version>\n</Package>\n"@
}

pub trait ToPackage {
    /// The grouped model this value aggregates to under the given type mapping.
    spec fn package_model(&self, type_mapping: Seq<(String, String)>) -> Seq<TypeGroupModel>;

    /// Converts to a `Package` struct.
    fn to_package(&self, type_mapping: &Vec<(String, String)>) -> (p: Package)
        ensures
            p@.version == spec_version_of(None),
            p@.types == self.package_model(type_mapping@),
    ;
}

pub trait ToXML {
    /// The exact text this value renders to.
    spec fn xml(&self) -> Seq<char>;

    /// Converts to a `String` of XML.
    fn to_xml(&self) -> (r: String)
        ensures
            r@ == self.xml(),
    ;
}

impl ToXML for Members {
    open spec fn xml(&self) -> Seq<char> {
        spec_members_xml(self@)
    }

    fn to_xml(&self) -> (r: String)
        ensures
            r@ == self.xml(),
    {
        let mut s = String::new();
        s.append("        <members>");
        s.append(self.0.as_str());
        s.append("</members>");
        proof {
            assert(s@ =~= spec_members_xml(self@));
        }
        s
    }
}

impl ToXML for Vec<Members> {
    open spec fn xml(&self) -> Seq<char> {
        join_lines(self@.map_values(|m: Members| spec_members_xml(m@)))
    }

    fn to_xml(&self) -> (r: String)
        ensures
            r@ == self.xml(),
    {
        let ghost lines = self@.map_values(|m: Members| spec_members_xml(m@));
        let mut s = String::new();
        let mut i: usize = 0;
        while i < self.len()
            invariant
                lines == self@.map_values(|m: Members| spec_members_xml(m@)),
                i <= self.len(),
                s@ == join_lines(lines.take(i as int)),
            decreases self.len() - i,
        {
            if i > 0 {
                s.append("\n");
            }
            let line = self[i].to_xml();
            s.append(line.as_str());
            proof {
                assert(lines.take(i + 1 as int).drop_last() =~= lines.take(i as int));
                assert(lines.take(i + 1 as int).last() == spec_members_xml(self@[i as int]@));
                if i == 0 {
                    assert(s@ =~= join_lines(lines.take(1)));
                }
            }
            i = i + 1;
        }
        proof {
            assert(lines.take(self@.len() as int) =~= lines);
        }
        s
    }
}

impl ToXML for Types {
    open spec fn xml(&self) -> Seq<char> {
        spec_types_xml(self@)
    }

    fn to_xml(&self) -> (r: String)
        ensures
            r@ == self.xml(),
    {
        let mut s = String::new();
        s.append("    <types>\n");
        let body = self.members.to_xml();
        s.append(body.as_str());
        s.append("\n        <name>");
        s.append(self.name.as_str());
        s.append("</name>\n    </types>");
        proof {
            assert(self.members@.map_values(|m: Members| spec_members_xml(m@)) =~= self@
                .members.map_values(|m: Seq<char>| spec_members_xml(m)));
            assert(s@ =~= spec_types_xml(self@));
        }
        s
    }
}

impl ToXML for Vec<Types> {
    open spec fn xml(&self) -> Seq<char> {
        join_lines(self@.map_values(|t: Types| spec_types_xml(t@)))
    }

    fn to_xml(&self) -> (r: String)
        ensures
            r@ == self.xml(),
    {
        let ghost lines = self@.map_values(|t: Types| spec_types_xml(t@));
        let mut s = String::new();
        let mut i: usize = 0;
        while i < self.len()
            invariant
                lines == self@.map_values(|t: Types| spec_types_xml(t@)),
                i <= self.len(),
                s@ == join_lines(lines.take(i as int)),
            decreases self.len() - i,
        {
            if i > 0 {
                s.append("\n");
            }
            let line = self[i].to_xml();
            s.append(line.as_str());
            proof {
                assert(lines.take(i + 1 as int).drop_last() =~= lines.take(i as int));
                assert(lines.take(i + 1 as int).last() == spec_types_xml(self@[i as int]@));
                if i == 0 {
                    assert(s@ =~= join_lines(lines.take(1)));
                }
            }
            i = i + 1;
        }
        proof {
            assert(lines.take(self@.len() as int) =~= lines);
        }
        s
    }
}

impl ToXML for Package {
    open spec fn xml(&self) -> Seq<char> {
        spec_package_xml(self@)
    }

    fn to_xml(&self) -> (r: String)
        ensures
            r@ == self.xml(),
    {
        let mut s = String::new();
        s.append(
            "<?xml version=\"1.0\" encoding=\"UTF-8\"?>\n<Package xmlns=\"http://soap.sforce.com/2006/04/metadata\">\n",
        );
        let body = self.types.to_xml();
        s.append(body.as_str());
        s.append("\n    <version>");
        s.append(self.version.as_str());
        s.append("</version>\n</Package>\n");
        proof {
            assert(self.types@.map_values(|t: Types| spec_types_xml(t@)) =~= self@
                .types.map_values(|t: TypeGroupModel| spec_types_xml(t)));
            assert(s@ =~= spec_package_xml(self@));
        }
        s
    }
}

} // verus!
