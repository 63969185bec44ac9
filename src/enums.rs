use vstd::prelude::*;

use crate::result::Error;

verus! {

/// How the variants of a domain enumeration, numbered from zero in declaration order,
/// correspond to the discriminants of one wire enumeration.
///
/// A domain enumeration declared against several wire enumerations has one mapping for
/// each; they are independent of one another.
#[derive(Debug)]
pub struct EnumMapping {
    name: &'static str,
    discriminants: Vec<i32>,
}

/// Whether no two variants share a discriminant.
pub open spec fn distinct_discriminants(d: Seq<i32>) -> bool {
    forall|i: int, j: int| 0 <= i < d.len() && 0 <= j < d.len() && i != j ==> d[i] != d[j]
}

impl View for EnumMapping {
    /// The domain enumeration's declared name, and the discriminant of each variant.
    type V = (Seq<char>, Seq<i32>);

    closed spec fn view(&self) -> (Seq<char>, Seq<i32>) {
        (self.name@, self.discriminants@)
    }
}

/// Whether `r` is the outcome of looking up the discriminant `v` in a mapping with the
/// given name and discriminants.
pub open spec fn unpack_discriminant_spec(
    name: Seq<char>,
    discriminants: Seq<i32>,
    v: i32,
    r: Result<usize, Error>,
) -> bool {
    match r {
        Ok(k) => k < discriminants.len() && discriminants[k as int] == v,
        Err(e) => {
            &&& forall|i: int| 0 <= i < discriminants.len() ==> discriminants[i] != v
            &&& e matches Error::EnumDiscriminantNotFound { enum_name, discriminant } && enum_name@ == name
                && discriminant == v
        },
    }
}

impl EnumMapping {
    #[verifier::type_invariant]
    closed spec fn inv(self) -> bool {
        distinct_discriminants(self.discriminants@)
    }

    /// The mapping of the enumeration `name` whose variant `k` corresponds to
    /// `discriminants[k]`; none where two variants share a discriminant.
    pub fn new(name: &'static str, discriminants: Vec<i32>) -> (r: Option<EnumMapping>)
        ensures
            r is Some <==> distinct_discriminants(discriminants@),
            r matches Some(m) ==> m@ == (name@, discriminants@),
    {
        let n = discriminants.len();
        let mut i: usize = 0;
        while i < n
            invariant
                n == discriminants@.len(),
                i <= n,
                forall|a: int, b: int|
                    0 <= a < i && 0 <= b < n && a != b ==> discriminants@[a] != discriminants@[b],
            decreases n - i,
        {
            let mut j: usize = 0;
            while j < n
                invariant
                    n == discriminants@.len(),
                    i < n,
                    j <= n,
                    forall|a: int, b: int|
                        0 <= a < i && 0 <= b < n && a != b ==> discriminants@[a] != discriminants@[b],
                    forall|b: int| 0 <= b < j && b != i ==> discriminants@[i as int] != discriminants@[b],
                decreases n - j,
            {
                if j != i && discriminants[i] == discriminants[j] {
                    return None;
                }
                j = j + 1;
            }
            i = i + 1;
        }
        Some(EnumMapping { name, discriminants })
    }

    /// The domain enumeration's declared name.
    pub fn name(&self) -> (r: &'static str)
        ensures
            r@ == self@.0,
    {
        self.name
    }

    /// How many variants the domain enumeration has.
    pub fn variant_count(&self) -> (r: usize)
        ensures
            r == self@.1.len(),
    {
        self.discriminants.len()
    }

    /// The wire discriminant of the variant numbered `variant`.
    pub fn pack(&self, variant: usize) -> (r: i32)
        requires
            variant < self@.1.len(),
        ensures
            r == self@.1[variant as int],
    {
        self.discriminants[variant]
    }

    /// The variant that the wire discriminant `v` stands for; an undeclared one fails with
    /// the enumeration's name and `v`.
    pub fn unpack(&self, v: i32) -> (r: Result<usize, Error>)
        ensures
            unpack_discriminant_spec(self@.0, self@.1, v, r),
            distinct_discriminants(self@.1),
    {
        proof {
            use_type_invariant(self);
        }
        let n = self.discriminants.len();
        let mut k: usize = 0;
        while k < n
            invariant
                n == self.discriminants@.len(),
                distinct_discriminants(self.discriminants@),
                k <= n,
                forall|i: int| 0 <= i < k ==> self.discriminants@[i] != v,
            decreases n - k,
        {
            if self.discriminants[k] == v {
                return Ok(k);
            }
            k = k + 1;
        }
        Err(Error::EnumDiscriminantNotFound { enum_name: self.name, discriminant: v })
    }
}

/// A declared discriminant unpacks to the variant that packs to it, and that variant packs
/// back to the same discriminant.
pub proof fn lemma_enum_round_trip(m: EnumMapping, variant: usize)
    requires
        variant < m@.1.len(),
        distinct_discriminants(m@.1),
    ensures
        forall|r: Result<usize, Error>|
            #[trigger] unpack_discriminant_spec(m@.0, m@.1, m@.1[variant as int], r) ==> r == Ok::<usize, Error>(variant),
{
}

/// One domain enumeration declared against two wire enumerations packs and unpacks against
/// each by that one's own discriminants, whatever the other's are.
pub proof fn lemma_enum_two_targets(first: EnumMapping, second: EnumMapping, variant: usize)
    requires
        first@.0 == second@.0,
        first@.1.len() == second@.1.len(),
        variant < first@.1.len(),
        distinct_discriminants(first@.1),
        distinct_discriminants(second@.1),
    ensures
        forall|r: Result<usize, Error>|
            #[trigger] unpack_discriminant_spec(first@.0, first@.1, first@.1[variant as int], r) ==> r == Ok::<usize, Error>(variant),
        forall|r: Result<usize, Error>|
            #[trigger] unpack_discriminant_spec(second@.0, second@.1, second@.1[variant as int], r) ==> r == Ok::<usize, Error>(variant),
{
    lemma_enum_round_trip(first, variant);
    lemma_enum_round_trip(second, variant);
}

} // verus!
