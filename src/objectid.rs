use vstd::prelude::*;

verus! {

/// The number of bytes an identifier can hold.
pub const OBJECT_ID_CAPACITY: usize = 64;

/// The bytes of the reserved name `default` (ASCII).
pub open spec fn default_name() -> Seq<u8> {
    seq![100u8, 101u8, 102u8, 97u8, 117u8, 108u8, 116u8]
}

/// The bytes of the reserved name `system` (ASCII).
pub open spec fn system_name() -> Seq<u8> {
    seq![115u8, 121u8, 115u8, 116u8, 101u8, 109u8]
}

/// An identifier of a keyspace or a table: a fixed buffer of 64 bytes of
/// which the first `len` are used. The unused bytes are always zero, so that
/// the derived hash agrees with the byte-exact equality below.
#[derive(Clone, Copy, Debug, Hash)]
pub struct ObjectId {
    buf: [u8; 64],
    len: usize,
}

impl View for ObjectId {
    type V = Seq<u8>;

    closed spec fn view(&self) -> Seq<u8> {
        self.buf@.subrange(0, self.len as int)
    }
}

impl ObjectId {
    /// The used length never exceeds the buffer, and the bytes past it are
    /// zero.
    #[verifier::type_invariant]
    spec fn inv(&self) -> bool {
        &&& self.len <= OBJECT_ID_CAPACITY
        &&& forall|i: int| self.len <= i < 64 ==> self.buf[i] == 0u8
    }

    /// An identifier with no bytes.
    pub fn empty() -> (r: ObjectId)
        ensures
            r@ == Seq::<u8>::empty(),
    {
        let r = ObjectId { buf: [0u8; 64], len: 0 };
        assert(r@ =~= Seq::<u8>::empty());
        r
    }

    /// Builds an identifier holding exactly the bytes of `s`; `None` when `s`
    /// is longer than the capacity. Nothing is ever truncated.
    pub fn from_slice(s: &[u8]) -> (r: Option<ObjectId>)
        ensures
            r.is_some() <==> s@.len() <= OBJECT_ID_CAPACITY,
            r matches Some(id) ==> id@ == s@,
    {
        if s.len() > OBJECT_ID_CAPACITY {
            return None;
        }
        let mut id = ObjectId::empty();
        let mut i: usize = 0;
        while i < s.len()
            invariant
                i <= s@.len() <= OBJECT_ID_CAPACITY,
                    id@ == s@.subrange(0, i as int),
            decreases s@.len() - i,
        {
            id.push(s[i]);
            i = i + 1;
        }
        assert(s@.subrange(0, s@.len() as int) =~= s@);
        Some(id)
    }

    /// The identifier `default`.
    pub fn default_id() -> (r: ObjectId)
        ensures
            r@ == default_name(),
    {
        let mut r = ObjectId::empty();
        r.push(100u8);
        r.push(101u8);
        r.push(102u8);
        r.push(97u8);
        r.push(117u8);
        r.push(108u8);
        r.push(116u8);
        assert(r@ =~= default_name());
        r
    }

    /// The identifier `system`.
    pub fn system_id() -> (r: ObjectId)
        ensures
            r@ == system_name(),
    {
        let mut r = ObjectId::empty();
        r.push(115u8);
        r.push(121u8);
        r.push(115u8);
        r.push(116u8);
        r.push(101u8);
        r.push(109u8);
        assert(r@ =~= system_name());
        r
    }

    /// The number of used bytes.
    pub fn len(&self) -> (r: usize)
        ensures
            r as int == self@.len(),
    {
        proof {
            use_type_invariant(self);
        }
        self.len
    }

    /// Appends one byte; the identifier must not be full.
    pub fn push(&mut self, b: u8)
        requires
            old(self)@.len() < OBJECT_ID_CAPACITY,
        ensures
            final(self)@ == old(self)@.push(b),
    {
        proof {
            use_type_invariant(&*self);
        }
        let ghost before = self@;
        let n = self.len;
        let mut buf = self.buf;
        buf[n] = b;
        *self = ObjectId { buf, len: n + 1 };
        assert(self@ =~= before.push(b));
    }

    /// The used bytes, in order.
    pub fn to_vec(&self) -> (r: Vec<u8>)
        ensures
            r@ == self@,
    {
        proof {
            use_type_invariant(self);
        }
        let mut r: Vec<u8> = Vec::new();
        let mut i: usize = 0;
        while i < self.len
            invariant
                i <= self.len <= OBJECT_ID_CAPACITY,
                r@ == self@.subrange(0, i as int),
            decreases self.len - i,
        {
            r.push(self.buf[i]);
            i = i + 1;
        }
        assert(r@ =~= self@);
        r
    }

    /// Byte-exact comparison of the used bytes.
    pub fn same_as(&self, other: &ObjectId) -> (r: bool)
        ensures
            r == (self@ == other@),
    {
        proof {
            use_type_invariant(self);
            use_type_invariant(other);
        }
        if self.len != other.len {
            assert(self@.len() != other@.len());
            return false;
        }
        let mut i: usize = 0;
        while i < self.len
            invariant
                self.len == other.len <= OBJECT_ID_CAPACITY,
                i <= self.len,
                forall|j: int| 0 <= j < i ==> self@[j] == other@[j],
            decreases self.len - i,
        {
            if self.buf[i] != other.buf[i] {
                assert(self@[i as int] != other@[i as int]);
                return false;
            }
            i = i + 1;
        }
        assert(self@ =~= other@);
        true
    }
}

impl PartialEq for ObjectId {
    fn eq(&self, other: &ObjectId) -> (r: bool) {
        self.same_as(other)
    }
}

impl vstd::std_specs::cmp::PartialEqSpecImpl for ObjectId {
    open spec fn obeys_eq_spec() -> bool {
        true
    }

    open spec fn eq_spec(&self, other: &ObjectId) -> bool {
        self@ == other@
    }
}

impl Eq for ObjectId {
}

} // verus!
