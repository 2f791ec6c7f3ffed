//! The codec registry: which type names are known, and the codec of each.
//!
//! A registry is filled once, before any statement runs, and only read
//! afterwards. Reading borrows it, so any number of readers may share it.

use crate::codec::{Codec, CodecView};
use crate::descriptor::{DescriptorView, TypeDescriptor};
use vstd::prelude::*;
use vstd::string::*;

verus! {

/// Why a registry refused a request.
#[derive(Debug, Clone, Copy, PartialEq, Eq, Structural)]
pub enum RegistryError {
    /// No type of that name was registered.
    UnregisteredType,
    /// An array codec was asked for an element type that was never
    /// registered.
    UnregisteredElementType,
    /// A type of that name is registered already.
    DuplicateType,
}

/// The name under which the database knows the array type whose elements
/// are of the type `element`: the element's name behind an underscore.
pub open spec fn array_name(element: Seq<char>) -> Seq<char> {
    seq!['_'] + element
}

/// Whether a type reference has the form of an array name: an underscore
/// in front of the name of the element type.
pub open spec fn is_array_name(type_ref: Seq<char>) -> bool {
    type_ref.len() > 0 && type_ref[0] == '_'
}

/// The name of the element type in an array name.
pub open spec fn element_name(type_ref: Seq<char>) -> Seq<char> {
    type_ref.subrange(1, type_ref.len() as int)
}

/// The codec that a type reference stands for in a set of registered types.
/// A registered name stands for the codec of its type. Any other reference
/// that has the form of an array name stands for the array codec of its
/// element type, and fails with `UnregisteredElementType` where that type
/// is not registered. Every other reference fails with `UnregisteredType`.
pub open spec fn resolve_spec(types: Map<Seq<char>, DescriptorView>, type_ref: Seq<char>) -> Result<
    CodecView,
    RegistryError,
> {
    if types.contains_key(type_ref) {
        Ok(CodecView::Scalar(types[type_ref]))
    } else if is_array_name(type_ref) {
        if types.contains_key(element_name(type_ref)) {
            Ok(CodecView::Array(types[element_name(type_ref)]))
        } else {
            Err(RegistryError::UnregisteredElementType)
        }
    } else {
        Err(RegistryError::UnregisteredType)
    }
}

/// The built-in scalar types under the names by which the database knows
/// them.
pub open spec fn builtin_types() -> Map<Seq<char>, DescriptorView> {
    Map::<Seq<char>, DescriptorView>::empty().insert("text"@, DescriptorView::Text).insert(
        "bool"@,
        DescriptorView::Boolean,
    ).insert("int8"@, DescriptorView::Integer).insert("float8"@, DescriptorView::Floating).insert(
        "uuid"@,
        DescriptorView::Uuid,
    )
}

#[derive(Debug)]
struct Entry {
    name: String,
    descriptor: TypeDescriptor,
}

spec fn entry_views(entries: Seq<Entry>) -> Seq<(Seq<char>, DescriptorView)> {
    entries.map_values(|e: Entry| (e.name@, e.descriptor@))
}

spec fn as_map(s: Seq<(Seq<char>, DescriptorView)>) -> Map<Seq<char>, DescriptorView>
    decreases s.len(),
{
    if s.len() == 0 {
        Map::empty()
    } else {
        as_map(s.drop_first()).insert(s[0].0, s[0].1)
    }
}

proof fn lemma_as_map_absent(s: Seq<(Seq<char>, DescriptorView)>, n: Seq<char>)
    requires
        forall|k: int| 0 <= k < s.len() ==> (#[trigger] s[k]).0 != n,
    ensures
        !as_map(s).contains_key(n),
    decreases s.len(),
{
    if s.len() > 0 {
        let rest = s.drop_first();
        assert forall|k: int| 0 <= k < rest.len() implies (#[trigger] rest[k]).0 != n by {
            assert(rest[k] == s[k + 1]);
        }
        lemma_as_map_absent(rest, n);
        assert(s[0].0 != n);
    }
}

proof fn lemma_as_map_first(s: Seq<(Seq<char>, DescriptorView)>, i: int)
    requires
        0 <= i < s.len(),
        forall|k: int| 0 <= k < i ==> (#[trigger] s[k]).0 != s[i].0,
    ensures
        as_map(s).contains_key(s[i].0),
        as_map(s)[s[i].0] == s[i].1,
    decreases s.len(),
{
    if i > 0 {
        let rest = s.drop_first();
        assert(rest[i - 1] == s[i]);
        assert forall|k: int| 0 <= k < i - 1 implies (#[trigger] rest[k]).0 != rest[i - 1].0 by {
            assert(rest[k] == s[k + 1]);
        }
        lemma_as_map_first(rest, i - 1);
        assert(s[0].0 != s[i].0);
    }
}

proof fn lemma_as_map_push(s: Seq<(Seq<char>, DescriptorView)>, e: (Seq<char>, DescriptorView))
    requires
        !as_map(s).contains_key(e.0),
    ensures
        as_map(s.push(e)) == as_map(s).insert(e.0, e.1),
    decreases s.len(),
{
    if s.len() == 0 {
        assert(s.push(e).drop_first() =~= s);
        assert(as_map(s.push(e)) =~= as_map(s).insert(e.0, e.1));
    } else {
        let rest = s.drop_first();
        assert(s.push(e).drop_first() =~= rest.push(e));
        assert(s[0].0 != e.0);
        assert(!as_map(rest).contains_key(e.0));
        lemma_as_map_push(rest, e);
        assert(as_map(s.push(e)) =~= as_map(s).insert(e.0, e.1));
    }
}

/// The registered types, each under its name.
#[derive(Debug)]
pub struct Registry {
    entries: Vec<Entry>,
}

impl View for Registry {
    type V = Map<Seq<char>, DescriptorView>;

    closed spec fn view(&self) -> Map<Seq<char>, DescriptorView> {
        as_map(entry_views(self.entries@))
    }
}

impl Registry {
    /// A registry without types.
    pub fn new() -> (r: Registry)
        ensures
            r@ == Map::<Seq<char>, DescriptorView>::empty(),
    {
        let entries: Vec<Entry> = Vec::new();
        assert(entry_views(entries@) =~= Seq::<(Seq<char>, DescriptorView)>::empty());
        Registry { entries }
    }

    /// A registry with the built-in scalar types: `text`, `bool`, `int8`,
    /// `float8` and `uuid`.
    pub fn with_builtins() -> (r: Registry)
        ensures
            r@ == builtin_types(),
    {
        proof {
            reveal_strlit("text");
            reveal_strlit("bool");
            reveal_strlit("int8");
            reveal_strlit("float8");
            reveal_strlit("uuid");
            assert("text"@[0] != "bool"@[0]);
            assert("text"@[0] != "int8"@[0]);
            assert("bool"@[0] != "int8"@[0]);
            assert("float8"@.len() != "text"@.len());
            assert("uuid"@[0] != "text"@[0]);
            assert("uuid"@[0] != "bool"@[0]);
            assert("uuid"@[0] != "int8"@[0]);
            assert("uuid"@.len() != "float8"@.len());
        }
        let mut r = Registry::new();
        let _ = r.register("text".to_owned(), TypeDescriptor::Text);
        let _ = r.register("bool".to_owned(), TypeDescriptor::Boolean);
        let _ = r.register("int8".to_owned(), TypeDescriptor::Integer);
        let _ = r.register("float8".to_owned(), TypeDescriptor::Floating);
        let _ = r.register("uuid".to_owned(), TypeDescriptor::Uuid);
        r
    }

    fn find(&self, name: &String) -> (r: Option<usize>)
        ensures
            self@.contains_key(name@) <==> r is Some,
            r matches Some(i) ==> i < self.entries@.len() && self.entries@[i as int].name@ == name@
                && self.entries@[i as int].descriptor@ == self@[name@],
    {
        let ghost views = entry_views(self.entries@);
        let n = self.entries.len();
        let mut i: usize = 0;
        while i < n
            invariant
                n == self.entries@.len(),
                views == entry_views(self.entries@),
                i <= n,
                forall|k: int| 0 <= k < i ==> (#[trigger] views[k]).0 != name@,
            decreases n - i,
        {
            if self.entries[i].name == *name {
                proof {
                    assert(views[i as int].0 == name@);
                    lemma_as_map_first(views, i as int);
                }
                return Some(i);
            }
            proof {
                assert(views[i as int].0 != name@);
            }
            i = i + 1;
        }
        proof {
            lemma_as_map_absent(views, name@);
        }
        None
    }

    /// Whether a type is registered under `name`.
    pub fn contains(&self, name: &str) -> (r: bool)
        ensures
            r == self@.contains_key(name@),
    {
        self.find(&name.to_owned()).is_some()
    }

    /// Registers `descriptor` under `name`. A name that is taken is
    /// refused, and the registry stays as it was.
    pub fn register(&mut self, name: String, descriptor: TypeDescriptor) -> (r: Result<
        (),
        RegistryError,
    >)
        ensures
            old(self)@.contains_key(name@) ==> r == Err::<(), RegistryError>(
                RegistryError::DuplicateType,
            ) && final(self)@ == old(self)@,
            !old(self)@.contains_key(name@) ==> r is Ok && final(self)@ == old(self)@.insert(
                name@,
                descriptor@,
            ),
    {
        if self.find(&name).is_some() {
            return Err(RegistryError::DuplicateType);
        }
        let ghost before = entry_views(self.entries@);
        let ghost added = (name@, descriptor@);
        self.entries.push(Entry { name, descriptor });
        proof {
            assert(entry_views(self.entries@) =~= before.push(added));
            lemma_as_map_push(before, added);
        }
        Ok(())
    }

    /// The codec of the type registered under `name`.
    pub fn lookup(&self, name: &str) -> (r: Result<Codec<'_>, RegistryError>)
        ensures
            self@.contains_key(name@) ==> (r matches Ok(c) && c@ == CodecView::Scalar(
                self@[name@],
            )),
            !self@.contains_key(name@) ==> (r matches Err(e) && e
                == RegistryError::UnregisteredType),
    {
        match self.find(&name.to_owned()) {
            Some(i) => Ok(Codec::Scalar(&self.entries[i].descriptor)),
            None => Err(RegistryError::UnregisteredType),
        }
    }

    /// The codec of one-dimensional arrays whose elements are of the type
    /// registered under `name`.
    pub fn lookup_array_of(&self, name: &str) -> (r: Result<Codec<'_>, RegistryError>)
        ensures
            self@.contains_key(name@) ==> (r matches Ok(c) && c@ == CodecView::Array(
                self@[name@],
            )),
            !self@.contains_key(name@) ==> (r matches Err(e) && e
                == RegistryError::UnregisteredElementType),
    {
        match self.find(&name.to_owned()) {
            Some(i) => Ok(Codec::Array(&self.entries[i].descriptor)),
            None => Err(RegistryError::UnregisteredElementType),
        }
    }

    /// The codec that the type reference `type_ref` stands for: that of a
    /// registered type of this name, or else, for a reference in the form
    /// of an array name, the array codec of the element type. An array
    /// name whose element type is not registered is refused with
    /// `UnregisteredElementType`, any other unknown reference with
    /// `UnregisteredType`.
    pub fn resolve(&self, type_ref: &str) -> (r: Result<Codec<'_>, RegistryError>)
        ensures
            r matches Ok(c) ==> resolve_spec(self@, type_ref@) == Ok::<CodecView, RegistryError>(
                c@,
            ),
            r matches Err(e) ==> resolve_spec(self@, type_ref@) == Err::<CodecView, RegistryError>(
                e,
            ),
    {
        match self.find(&type_ref.to_owned()) {
            Some(i) => Ok(Codec::Scalar(&self.entries[i].descriptor)),
            None => {
                let len = type_ref.unicode_len();
                if len > 0 && type_ref.get_char(0) == '_' {
                    self.lookup_array_of(type_ref.substring_char(1, len))
                } else {
                    Err(RegistryError::UnregisteredType)
                }
            },
        }
    }
}

/// The array name of a type: its name behind an underscore.
pub fn array_name_of(element: &str) -> (r: String)
    ensures
        r@ == array_name(element@),
{
    proof {
        reveal_strlit("_");
    }
    let r = "_".to_owned().concat(element);
    assert(r@ =~= array_name(element@));
    r
}

/// An array name that is no registered name itself stands for the array
/// codec of its element type where that type is registered, and is
/// refused with `UnregisteredElementType` where it is not.
pub proof fn lemma_array_name_resolves(types: Map<Seq<char>, DescriptorView>, element: Seq<char>)
    requires
        !types.contains_key(array_name(element)),
    ensures
        types.contains_key(element) ==> resolve_spec(types, array_name(element)) == Ok::<
            CodecView,
            RegistryError,
        >(CodecView::Array(types[element])),
        !types.contains_key(element) ==> resolve_spec(types, array_name(element)) == Err::<
            CodecView,
            RegistryError,
        >(RegistryError::UnregisteredElementType),
{
    let name = array_name(element);
    assert(element_name(name) =~= element);
}

} // verus!
