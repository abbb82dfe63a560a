//! The identifier types records are filed under. The engine is generic over
//! [`RecordId`]; it never looks inside an identifier beyond its canonical
//! byte serialization and its preferred base encoding. The cryptographic
//! construction of these identifiers is a collaborator's concern: each type
//! here holds the finished serialization.

use vstd::prelude::*;

use crate::encoding::Base;
use crate::fstree::clone_bytes;

verus! {

/// Compare two byte vectors.
pub(crate) fn bytes_eq(a: &Vec<u8>, b: &Vec<u8>) -> (r: bool)
    ensures
        r == (a@ == b@),
{
    if a.len() != b.len() {
        return false;
    }
    let mut i: usize = 0;
    while i < a.len()
        invariant
            a@.len() == b@.len(),
            i <= a@.len(),
            forall|j: int| 0 <= j < i ==> a@[j] == b@[j],
        decreases a@.len() - i,
    {
        if a[i] != b[i] {
            return false;
        }
        i += 1;
    }
    proof {
        assert(a@ =~= b@);
    }
    true
}

/// An identifier the storage engine can file a record under.
pub trait RecordId: Sized {
    /// the canonical byte serialization of the identifier
    spec fn id_bytes(&self) -> Seq<u8>;

    /// the base encoding a handle uses when no other one is chosen
    spec fn preferred() -> Base;

    /// The preferred base encoding of this identifier type.
    fn preferred_encoding() -> (b: Base)
        ensures
            b == Self::preferred(),
    ;

    /// The canonical byte serialization of this identifier.
    fn to_bytes(&self) -> (v: Vec<u8>)
        ensures
            v@ == self.id_bytes(),
    ;
}

/// A content identifier, held as its canonical byte serialization.
#[derive(Clone, Debug)]
pub struct Cid {
    /// the serialized form
    pub bytes: Vec<u8>,
}

impl Cid {
    /// A content identifier from its serialized form.
    pub fn new(bytes: Vec<u8>) -> (r: Cid)
        ensures
            r.bytes@ == bytes@,
    {
        Cid { bytes }
    }
}

impl RecordId for Cid {
    open spec fn id_bytes(&self) -> Seq<u8> {
        self.bytes@
    }

    open spec fn preferred() -> Base {
        Base::Base32Z
    }

    fn preferred_encoding() -> (b: Base) {
        Base::Base32Z
    }

    fn to_bytes(&self) -> (v: Vec<u8>) {
        clone_bytes(&self.bytes)
    }
}

impl PartialEq for Cid {
    fn eq(&self, other: &Cid) -> (r: bool) {
        bytes_eq(&self.bytes, &other.bytes)
    }
}

impl vstd::std_specs::cmp::PartialEqSpecImpl for Cid {
    open spec fn obeys_eq_spec() -> bool {
        true
    }

    open spec fn eq_spec(&self, other: &Cid) -> bool {
        self.bytes@ == other.bytes@
    }
}

/// A key identifier, held as its canonical byte serialization.
#[derive(Clone, Debug)]
pub struct Multikey {
    /// the serialized form
    pub bytes: Vec<u8>,
}

impl Multikey {
    /// A key identifier from its serialized form.
    pub fn new(bytes: Vec<u8>) -> (r: Multikey)
        ensures
            r.bytes@ == bytes@,
    {
        Multikey { bytes }
    }
}

impl RecordId for Multikey {
    open spec fn id_bytes(&self) -> Seq<u8> {
        self.bytes@
    }

    open spec fn preferred() -> Base {
        Base::Base32Z
    }

    fn preferred_encoding() -> (b: Base) {
        Base::Base32Z
    }

    fn to_bytes(&self) -> (v: Vec<u8>) {
        clone_bytes(&self.bytes)
    }
}

impl PartialEq for Multikey {
    fn eq(&self, other: &Multikey) -> (r: bool) {
        bytes_eq(&self.bytes, &other.bytes)
    }
}

impl vstd::std_specs::cmp::PartialEqSpecImpl for Multikey {
    open spec fn obeys_eq_spec() -> bool {
        true
    }

    open spec fn eq_spec(&self, other: &Multikey) -> bool {
        self.bytes@ == other.bytes@
    }
}

/// A verifiable-log address, held as its canonical byte serialization.
#[derive(Clone, Debug)]
pub struct Vlad {
    /// the serialized form
    pub bytes: Vec<u8>,
}

impl Vlad {
    /// A verifiable-log address from its serialized form.
    pub fn new(bytes: Vec<u8>) -> (r: Vlad)
        ensures
            r.bytes@ == bytes@,
    {
        Vlad { bytes }
    }
}

impl RecordId for Vlad {
    open spec fn id_bytes(&self) -> Seq<u8> {
        self.bytes@
    }

    open spec fn preferred() -> Base {
        Base::Base32Z
    }

    fn preferred_encoding() -> (b: Base) {
        Base::Base32Z
    }

    fn to_bytes(&self) -> (v: Vec<u8>) {
        clone_bytes(&self.bytes)
    }
}

impl PartialEq for Vlad {
    fn eq(&self, other: &Vlad) -> (r: bool) {
        bytes_eq(&self.bytes, &other.bytes)
    }
}

impl vstd::std_specs::cmp::PartialEqSpecImpl for Vlad {
    open spec fn obeys_eq_spec() -> bool {
        true
    }

    open spec fn eq_spec(&self, other: &Vlad) -> bool {
        self.bytes@ == other.bytes@
    }
}

} // verus!
