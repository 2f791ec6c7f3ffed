//! Descriptors of the database types that the codec knows: the built-in
//! scalars, enumerations and text domains.

use vstd::prelude::*;

verus! {

/// Object identifier of the built-in boolean type.
pub const BOOL_OID: u32 = 16;

/// Object identifier of the built-in 64-bit integer type.
pub const INT8_OID: u32 = 20;

/// Object identifier of the built-in text type.
pub const TEXT_OID: u32 = 25;

/// Object identifier of the built-in double-precision type.
pub const FLOAT8_OID: u32 = 701;

/// Object identifier of the built-in type of universally unique
/// identifiers.
pub const UUID_OID: u32 = 2950;

/// The character sequences of a sequence of strings.
pub open spec fn texts(names: Seq<String>) -> Seq<Seq<char>> {
    names.map_values(|s: String| s@)
}

/// How the database compares two values of a text domain. The database
/// enforces the policy; the codec only carries it.
#[derive(Debug, Clone, Copy, PartialEq, Eq, Structural)]
pub enum ComparisonPolicy {
    Exact,
    CaseInsensitive,
}

/// Why a descriptor could not be built.
#[derive(Debug, Clone, Copy, PartialEq, Eq, Structural)]
pub enum DescriptorError {
    /// A member name was listed more than once.
    DuplicateMember,
}

/// Mathematical model of an enumeration type.
pub struct EnumView {
    pub name: Seq<char>,
    pub oid: u32,
    pub members: Seq<Seq<char>>,
}

/// A named enumeration type with an ordered list of distinct member names.
/// A member is known by its name; its position carries no meaning.
#[derive(Debug, PartialEq, Eq)]
pub struct EnumDescriptor {
    name: String,
    oid: u32,
    members: Vec<String>,
}

impl View for EnumDescriptor {
    type V = EnumView;

    closed spec fn view(&self) -> EnumView {
        EnumView { name: self.name@, oid: self.oid, members: texts(self.members@) }
    }
}

impl Clone for EnumDescriptor {
    fn clone(&self) -> (r: Self)
        ensures
            r@ == self@,
    {
        proof {
            use_type_invariant(self);
        }
        let n = self.members.len();
        let mut members: Vec<String> = Vec::new();
        let mut i: usize = 0;
        while i < n
            invariant
                n == self.members@.len(),
                i <= n,
                members@.len() == i,
                forall|k: int| 0 <= k < i ==> members@[k]@ == self.members@[k]@,
            decreases n - i,
        {
            members.push(self.members[i].clone());
            i = i + 1;
        }
        assert(texts(members@) =~= texts(self.members@));
        EnumDescriptor { name: self.name.clone(), oid: self.oid, members }
    }
}

impl EnumDescriptor {
    #[verifier::type_invariant]
    spec fn members_distinct(self) -> bool {
        texts(self.members@).no_duplicates()
    }

    /// Builds the descriptor of the enumeration `name` with the given
    /// members, in their declared order. A repeated member is refused.
    pub fn new(name: String, oid: u32, members: Vec<String>) -> (r: Result<Self, DescriptorError>)
        ensures
            r is Ok <==> texts(members@).no_duplicates(),
            r matches Ok(d) ==> d@ == (EnumView {
                name: name@,
                oid,
                members: texts(members@),
            }),
            r matches Err(e) ==> e == DescriptorError::DuplicateMember,
    {
        let n = members.len();
        let mut i: usize = 0;
        while i < n
            invariant
                n == members@.len(),
                i <= n,
                forall|a: int, b: int| 0 <= a < b < i ==> members@[a]@ != members@[b]@,
            decreases n - i,
        {
            let mut j: usize = 0;
            while j < i
                invariant
                    n == members@.len(),
                    i < n,
                    j <= i,
                    forall|a: int| 0 <= a < j ==> members@[a]@ != members@[i as int]@,
                decreases i - j,
            {
                if members[j] == members[i] {
                    proof {
                        let s = texts(members@);
                        assert(s[j as int] == s[i as int]);
                    }
                    return Err(DescriptorError::DuplicateMember);
                }
                j = j + 1;
            }
            i = i + 1;
        }
        proof {
            let s = texts(members@);
            assert forall|a: int, b: int| 0 <= a < s.len() && 0 <= b < s.len() && a != b implies s[a]
                != s[b] by {
                if a < b {
                    assert(members@[a]@ != members@[b]@);
                } else {
                    assert(members@[b]@ != members@[a]@);
                }
            }
        }
        Ok(EnumDescriptor { name, oid, members })
    }

    /// The name of the type.
    pub fn name(&self) -> (r: &String)
        ensures
            r@ == self@.name,
    {
        &self.name
    }

    /// The object identifier that the database gave the type.
    pub fn oid(&self) -> (r: u32)
        ensures
            r == self@.oid,
    {
        self.oid
    }

    /// The member names in their declared order, no two of them equal.
    pub fn members(&self) -> (r: &Vec<String>)
        ensures
            texts(r@) == self@.members,
            self@.members.no_duplicates(),
    {
        proof {
            use_type_invariant(self);
        }
        &self.members
    }

    /// Whether `member` is one of the declared member names.
    pub fn has_member(&self, member: &String) -> (found: bool)
        ensures
            found == self@.members.contains(member@),
    {
        let n = self.members.len();
        let mut i: usize = 0;
        while i < n
            invariant
                n == self.members@.len(),
                i <= n,
                forall|a: int| 0 <= a < i ==> self.members@[a]@ != member@,
            decreases n - i,
        {
            if self.members[i] == *member {
                proof {
                    let s = texts(self.members@);
                    assert(s[i as int] == member@);
                }
                return true;
            }
            i = i + 1;
        }
        proof {
            let s = texts(self.members@);
            assert forall|a: int| 0 <= a < s.len() implies s[a] != member@ by {
                assert(self.members@[a]@ != member@);
            }
        }
        false
    }
}

/// Mathematical model of a text domain.
pub struct DomainView {
    pub name: Seq<char>,
    pub oid: u32,
    pub policy: ComparisonPolicy,
}

/// A named type that wraps text and carries a comparison policy. On the wire
/// a value of the domain is plain text.
#[derive(Debug, Clone, PartialEq, Eq)]
pub struct DomainDescriptor {
    pub name: String,
    pub oid: u32,
    pub policy: ComparisonPolicy,
}

impl View for DomainDescriptor {
    type V = DomainView;

    open spec fn view(&self) -> DomainView {
        DomainView { name: self.name@, oid: self.oid, policy: self.policy }
    }
}

/// Mathematical model of a type descriptor.
pub enum DescriptorView {
    Text,
    Boolean,
    Integer,
    Floating,
    Uuid,
    Enum(EnumView),
    Domain(DomainView),
}

impl DescriptorView {
    /// The object identifier under which the database knows the type.
    pub open spec fn oid(self) -> u32 {
        match self {
            DescriptorView::Text => TEXT_OID,
            DescriptorView::Boolean => BOOL_OID,
            DescriptorView::Integer => INT8_OID,
            DescriptorView::Floating => FLOAT8_OID,
            DescriptorView::Uuid => UUID_OID,
            DescriptorView::Enum(e) => e.oid,
            DescriptorView::Domain(d) => d.oid,
        }
    }
}

/// One database type of which the codec can encode and decode values.
#[derive(Debug, Clone, PartialEq, Eq)]
pub enum TypeDescriptor {
    /// Text in UTF-8.
    Text,
    /// A truth value.
    Boolean,
    /// A signed 64-bit integer.
    Integer,
    /// A double-precision number, held as its 64-bit pattern.
    Floating,
    /// A universally unique identifier: sixteen bytes.
    Uuid,
    /// A value out of a fixed set of names.
    Enum(EnumDescriptor),
    /// Text under a comparison policy of its own.
    Domain(DomainDescriptor),
}

impl View for TypeDescriptor {
    type V = DescriptorView;

    open spec fn view(&self) -> DescriptorView {
        match self {
            TypeDescriptor::Text => DescriptorView::Text,
            TypeDescriptor::Boolean => DescriptorView::Boolean,
            TypeDescriptor::Integer => DescriptorView::Integer,
            TypeDescriptor::Floating => DescriptorView::Floating,
            TypeDescriptor::Uuid => DescriptorView::Uuid,
            TypeDescriptor::Enum(e) => DescriptorView::Enum(e@),
            TypeDescriptor::Domain(d) => DescriptorView::Domain(d@),
        }
    }
}

impl TypeDescriptor {
    /// The object identifier under which the database knows the type.
    pub fn oid(&self) -> (r: u32)
        ensures
            r == self@.oid(),
    {
        match self {
            TypeDescriptor::Text => TEXT_OID,
            TypeDescriptor::Boolean => BOOL_OID,
            TypeDescriptor::Integer => INT8_OID,
            TypeDescriptor::Floating => FLOAT8_OID,
            TypeDescriptor::Uuid => UUID_OID,
            TypeDescriptor::Enum(e) => e.oid(),
            TypeDescriptor::Domain(d) => d.oid,
        }
    }
}

} // verus!
