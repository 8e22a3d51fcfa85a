//! The vessel: a container of hulls, tanks, appendages, deck edges, wind
//! silhouettes, downflooding openings, and the pre-computed contact surfaces
//! between hulls.
//!
//! The vessel is generic in the types of its hulls (`H`), tanks (`T`),
//! appendages (`A`), deck edges (`D`) and downflooding openings (`O`), whose
//! geometry is handled by their own code; it keeps their lists and the
//! vessel-level reference positions.

use vstd::prelude::*;

use crate::silhouette::Silhouette;

verus! {

/// Pre-computed contact surface between two hulls: the faces of each hull
/// that touch the other, and the total contact area (binary64 bit pattern,
/// m²).
#[derive(Debug)]
pub struct ContactSurface {
    /// Index of the first hull.
    pub hull_i: usize,
    /// Index of the second hull.
    pub hull_j: usize,
    /// Indices of faces in hull_i that are in contact.
    pub face_indices_i: Vec<usize>,
    /// Indices of faces in hull_j that are in contact.
    pub face_indices_j: Vec<usize>,
    /// Total pre-computed contact area in m².
    pub total_area: u64,
}

/// `b` has the same hull pair, face indices and area as `a`.
pub open spec fn same_contact(a: ContactSurface, b: ContactSurface) -> bool {
    &&& b.hull_i == a.hull_i
    &&& b.hull_j == a.hull_j
    &&& b.face_indices_i@ == a.face_indices_i@
    &&& b.face_indices_j@ == a.face_indices_j@
    &&& b.total_area == a.total_area
}

/// A copy of the face indices.
fn copy_faces(faces: &Vec<usize>) -> (r: Vec<usize>)
    ensures
        r@ == faces@,
{
    let r = faces.clone();
    assert(r@ =~= faces@);
    r
}

impl Clone for ContactSurface {
    /// A copy with the same hull pair, faces and area.
    fn clone(&self) -> (cs: Self)
        ensures
            same_contact(*self, cs),
    {
        ContactSurface {
            hull_i: self.hull_i,
            hull_j: self.hull_j,
            face_indices_i: copy_faces(&self.face_indices_i),
            face_indices_j: copy_faces(&self.face_indices_j),
            total_area: self.total_area,
        }
    }
}

/// The contact detected between one pair of hulls.
#[derive(Debug)]
pub struct PairContact {
    /// Faces of the first hull of the pair that are in contact.
    pub face_indices_i: Vec<usize>,
    /// Faces of the second hull of the pair that are in contact.
    pub face_indices_j: Vec<usize>,
    /// Total contact area (binary64 bit pattern, m²).
    pub total_area: u64,
}

impl Clone for PairContact {
    /// A copy with the same faces and area.
    fn clone(&self) -> (c: Self)
        ensures
            c.face_indices_i@ == self.face_indices_i@,
            c.face_indices_j@ == self.face_indices_j@,
            c.total_area == self.total_area,
    {
        PairContact {
            face_indices_i: copy_faces(&self.face_indices_i),
            face_indices_j: copy_faces(&self.face_indices_j),
            total_area: self.total_area,
        }
    }
}

/// The abstract content of a vessel.
#[verifier::ext_equal]
pub struct VesselView<H, T, A, D, O> {
    pub hulls: Seq<H>,
    pub tanks: Seq<T>,
    pub appendages: Seq<A>,
    pub deck_edges: Seq<D>,
    /// Aft perpendicular, when set explicitly.
    pub ap: Option<u64>,
    /// Forward perpendicular, when set explicitly.
    pub fp: Option<u64>,
    pub silhouettes: Seq<Silhouette>,
    pub downflooding_openings: Seq<O>,
    pub contact_surfaces: Seq<ContactSurface>,
}

/// The contact surfaces of a vessel, always for ordered hull pairs, each at
/// most once, in lexicographic order of the pairs.
#[derive(Debug)]
struct ContactIndex {
    surfaces: Vec<ContactSurface>,
}

impl ContactIndex {
    #[verifier::type_invariant]
    spec fn well_ordered(self) -> bool {
        contacts_ordered(self.surfaces@)
    }

    /// A copy whose surfaces are copies of these, in the same order.
    fn duplicate(&self) -> (r: Self)
        ensures
            r.surfaces@.len() == self.surfaces@.len(),
            forall|k: int|
                0 <= k < self.surfaces@.len() ==> same_contact(
                    #[trigger] self.surfaces@[k],
                    r.surfaces@[k],
                ),
    {
        proof {
            use_type_invariant(self);
        }
        let surfaces = self.surfaces.clone();
        assert forall|k: int| 0 <= k < self.surfaces@.len() implies same_contact(
            #[trigger] self.surfaces@[k],
            surfaces@[k],
        ) by {
            assert(cloned::<ContactSurface>(self.surfaces[k], surfaces[k]));
        }
        ContactIndex { surfaces }
    }
}

/// A vessel containing hull geometries, tanks, and vessel-level properties.
///
/// Supports single-hull vessels (monohulls) and multi-hull vessels
/// (catamarans, trimarans).
#[derive(Debug)]
pub struct Vessel<H, T, A, D, O> {
    hulls: Vec<H>,
    tanks: Vec<T>,
    appendages: Vec<A>,
    deck_edges: Vec<D>,
    ap: Option<u64>,
    fp: Option<u64>,
    silhouettes: Vec<Silhouette>,
    downflooding_openings: Vec<O>,
    contact_surfaces: ContactIndex,
}

impl<H, T, A, D, O> View for Vessel<H, T, A, D, O> {
    type V = VesselView<H, T, A, D, O>;

    closed spec fn view(&self) -> VesselView<H, T, A, D, O> {
        VesselView {
            hulls: self.hulls@,
            tanks: self.tanks@,
            appendages: self.appendages@,
            deck_edges: self.deck_edges@,
            ap: self.ap,
            fp: self.fp,
            silhouettes: self.silhouettes@,
            downflooding_openings: self.downflooding_openings@,
            contact_surfaces: self.contact_surfaces.surfaces@,
        }
    }
}

/// `b` holds clones of the items of `a`, in the same order.
pub open spec fn cloned_items<X: Clone>(a: Seq<X>, b: Seq<X>) -> bool {
    &&& b.len() == a.len()
    &&& forall|k: int| 0 <= k < a.len() ==> cloned::<X>(#[trigger] a[k], b[k])
}

/// `b` holds silhouettes with the same points and names as those of `a`, in
/// the same order.
pub open spec fn same_silhouettes(a: Seq<Silhouette>, b: Seq<Silhouette>) -> bool {
    &&& b.len() == a.len()
    &&& forall|k: int|
        0 <= k < a.len() ==> (#[trigger] b[k]).point_seq() == a[k].point_seq()
            && b[k].name_text() == a[k].name_text()
}

/// `b` holds contact surfaces with the same pairs, faces and areas as those
/// of `a`, in the same order.
pub open spec fn same_contacts(a: Seq<ContactSurface>, b: Seq<ContactSurface>) -> bool {
    &&& b.len() == a.len()
    &&& forall|k: int| 0 <= k < a.len() ==> same_contact(#[trigger] a[k], b[k])
}

impl<H: Clone, T: Clone, A: Clone, D: Clone, O: Clone> Clone for Vessel<H, T, A, D, O> {
    /// A copy whose hulls, tanks, appendages, deck edges and openings are
    /// clones of these, with the same perpendiculars, silhouettes and
    /// contact surfaces.
    fn clone(&self) -> (v: Self)
        ensures
            cloned_items(self@.hulls, v@.hulls),
            cloned_items(self@.tanks, v@.tanks),
            cloned_items(self@.appendages, v@.appendages),
            cloned_items(self@.deck_edges, v@.deck_edges),
            cloned_items(self@.downflooding_openings, v@.downflooding_openings),
            v@.ap == self@.ap,
            v@.fp == self@.fp,
            same_silhouettes(self@.silhouettes, v@.silhouettes),
            same_contacts(self@.contact_surfaces, v@.contact_surfaces),
    {
        let silhouettes = self.silhouettes.clone();
        assert forall|k: int| 0 <= k < self.silhouettes@.len() implies (
        #[trigger] silhouettes@[k]).point_seq() == self.silhouettes@[k].point_seq()
            && silhouettes@[k].name_text() == self.silhouettes@[k].name_text() by {
            assert(cloned::<Silhouette>(self.silhouettes[k], silhouettes[k]));
        }
        Vessel {
            hulls: self.hulls.clone(),
            tanks: self.tanks.clone(),
            appendages: self.appendages.clone(),
            deck_edges: self.deck_edges.clone(),
            ap: self.ap,
            fp: self.fp,
            silhouettes,
            downflooding_openings: self.downflooding_openings.clone(),
            contact_surfaces: self.contact_surfaces.duplicate(),
        }
    }
}

/// `k` is the position of the first silhouette called `name`.
pub open spec fn is_first_silhouette_named(
    silhouettes: Seq<Silhouette>,
    name: Seq<char>,
    k: int,
) -> bool {
    &&& 0 <= k < silhouettes.len()
    &&& silhouettes[k].name_text() == name
    &&& forall|l: int| 0 <= l < k ==> silhouettes[l].name_text() != name
}

/// `(a_i, a_j)` comes before `(b_i, b_j)` in lexicographic order.
pub open spec fn pair_before(a_i: int, a_j: int, b_i: int, b_j: int) -> bool {
    a_i < b_i || (a_i == b_i && a_j < b_j)
}

/// Some contact surface of `surfaces` is for the hull pair `(lo, hi)`.
pub open spec fn has_contact(surfaces: Seq<ContactSurface>, lo: int, hi: int) -> bool {
    exists|k: int|
        0 <= k < surfaces.len() && #[trigger] surfaces[k].hull_i == lo && surfaces[k].hull_j == hi
}

/// `k` is the position of the first contact surface for the pair `(lo, hi)`.
pub open spec fn is_first_contact(surfaces: Seq<ContactSurface>, lo: int, hi: int, k: int) -> bool {
    &&& 0 <= k < surfaces.len()
    &&& surfaces[k].hull_i == lo
    &&& surfaces[k].hull_j == hi
    &&& forall|l: int| 0 <= l < k ==> !(surfaces[l].hull_i == lo && surfaces[l].hull_j == hi)
}

/// The smaller of the two hull indices.
pub open spec fn pair_low(i: int, j: int) -> int {
    if i <= j { i } else { j }
}

/// The larger of the two hull indices.
pub open spec fn pair_high(i: int, j: int) -> int {
    if i <= j { j } else { i }
}

/// The position of the first contact surface for the unordered pair of hulls
/// `i` and `j`, when there is one.
pub open spec fn contact_position(surfaces: Seq<ContactSurface>, i: int, j: int) -> Option<int> {
    let lo = pair_low(i, j);
    let hi = pair_high(i, j);
    if has_contact(surfaces, lo, hi) {
        Some(choose|k: int| is_first_contact(surfaces, lo, hi, k))
    } else {
        None
    }
}

/// The pre-computed contact area between hulls `i` and `j` (in either
/// order); the pattern of `+0` when no contact was found for the pair.
pub open spec fn contact_area(surfaces: Seq<ContactSurface>, i: int, j: int) -> u64 {
    match contact_position(surfaces, i, j) {
        Some(k) => surfaces[k].total_area,
        None => 0u64,
    }
}

/// The contact faces of hull `i` and of hull `j`, in that order, when a
/// contact was found for the pair.
pub open spec fn contact_faces(surfaces: Seq<ContactSurface>, i: int, j: int) -> Option<
    (Seq<usize>, Seq<usize>),
> {
    match contact_position(surfaces, i, j) {
        Some(k) => if i <= j {
            Some((surfaces[k].face_indices_i@, surfaces[k].face_indices_j@))
        } else {
            Some((surfaces[k].face_indices_j@, surfaces[k].face_indices_i@))
        },
        None => None,
    }
}

/// The contact surfaces are for pairs `hull_i < hull_j`, each pair at most
/// once, in strictly increasing lexicographic order of the pairs.
pub open spec fn contacts_ordered(surfaces: Seq<ContactSurface>) -> bool {
    &&& forall|k: int| 0 <= k < surfaces.len() ==> #[trigger] surfaces[k].hull_i < surfaces[k].hull_j
    &&& forall|k: int, l: int|
        0 <= k < l < surfaces.len() ==> pair_before(
            surfaces[k].hull_i as int,
            surfaces[k].hull_j as int,
            surfaces[l].hull_i as int,
            surfaces[l].hull_j as int,
        )
}

/// A hull has no contact surface with itself: with ordered contact surfaces,
/// the contact area of a hull paired with itself is the pattern of `+0`, and
/// it has no contact faces.
pub proof fn contact_with_itself_is_empty(surfaces: Seq<ContactSurface>, i: int)
    requires
        contacts_ordered(surfaces),
    ensures
        contact_area(surfaces, i, i) == 0u64,
        contact_faces(surfaces, i, i) is None,
{
    if has_contact(surfaces, i, i) {
        let k = choose|k: int|
            0 <= k < surfaces.len() && #[trigger] surfaces[k].hull_i == i && surfaces[k].hull_j == i;
        assert(surfaces[k].hull_i < surfaces[k].hull_j);
    }
}

/// There is exactly one first contact surface for a pair that has one.
proof fn first_contact_unique(surfaces: Seq<ContactSurface>, lo: int, hi: int, k: int)
    requires
        is_first_contact(surfaces, lo, hi, k),
    ensures
        has_contact(surfaces, lo, hi),
        (choose|m: int| is_first_contact(surfaces, lo, hi, m)) == k,
{
    assert(surfaces[k].hull_i == lo);
    let m = choose|m: int| is_first_contact(surfaces, lo, hi, m);
    assert(is_first_contact(surfaces, lo, hi, m));
    if m < k {
        assert(!(surfaces[m].hull_i == lo && surfaces[m].hull_j == hi));
    }
    if k < m {
        assert(!(surfaces[k].hull_i == lo && surfaces[k].hull_j == hi));
    }
}

/// With ordered contact surfaces, a surface is the first, and the only one,
/// recorded for its pair.
proof fn ordered_contact_is_first(surfaces: Seq<ContactSurface>, k: int)
    requires
        contacts_ordered(surfaces),
        0 <= k < surfaces.len(),
    ensures
        is_first_contact(surfaces, surfaces[k].hull_i as int, surfaces[k].hull_j as int, k),
        forall|l: int|
            0 <= l < surfaces.len() && surfaces[l].hull_i == surfaces[k].hull_i
                && surfaces[l].hull_j == surfaces[k].hull_j ==> l == k,
{
    assert forall|l: int|
        0 <= l < surfaces.len() && l != k implies !(surfaces[l].hull_i == surfaces[k].hull_i
        && surfaces[l].hull_j == surfaces[k].hull_j) by {
        if l < k {
            assert(pair_before(
                surfaces[l].hull_i as int,
                surfaces[l].hull_j as int,
                surfaces[k].hull_i as int,
                surfaces[k].hull_j as int,
            ));
        } else {
            assert(pair_before(
                surfaces[k].hull_i as int,
                surfaces[k].hull_j as int,
                surfaces[l].hull_i as int,
                surfaces[l].hull_j as int,
            ));
        }
    }
}

/// The contact area of two hulls is `+0` when no surface is recorded for
/// their pair, and otherwise the area of a surface recorded for that pair.
pub proof fn contact_area_is_recorded(surfaces: Seq<ContactSurface>, i: int, j: int)
    ensures
        !has_contact(surfaces, pair_low(i, j), pair_high(i, j)) ==> contact_area(surfaces, i, j)
            == 0u64,
        has_contact(surfaces, pair_low(i, j), pair_high(i, j)) ==> exists|k: int|
            0 <= k < surfaces.len() && surfaces[k].hull_i == pair_low(i, j) && surfaces[k].hull_j
                == pair_high(i, j) && contact_area(surfaces, i, j) == surfaces[k].total_area,
{
    let lo = pair_low(i, j);
    let hi = pair_high(i, j);
    if has_contact(surfaces, lo, hi) {
        let k0 = choose|k: int|
            0 <= k < surfaces.len() && #[trigger] surfaces[k].hull_i == lo && surfaces[k].hull_j == hi;
        first_contact_exists(surfaces, lo, hi, k0);
        let k = choose|k: int| is_first_contact(surfaces, lo, hi, k);
        assert(is_first_contact(surfaces, lo, hi, k));
    }
}

/// Some surface for the pair `(lo, hi)` at `k0` means there is a first one.
proof fn first_contact_exists(surfaces: Seq<ContactSurface>, lo: int, hi: int, k0: int)
    requires
        0 <= k0 < surfaces.len(),
        surfaces[k0].hull_i == lo,
        surfaces[k0].hull_j == hi,
    ensures
        exists|k: int| is_first_contact(surfaces, lo, hi, k),
    decreases k0,
{
    if forall|l: int| 0 <= l < k0 ==> !(surfaces[l].hull_i == lo && surfaces[l].hull_j == hi) {
        assert(is_first_contact(surfaces, lo, hi, k0));
    } else {
        let l = choose|l: int| 0 <= l < k0 && surfaces[l].hull_i == lo && surfaces[l].hull_j == hi;
        first_contact_exists(surfaces, lo, hi, l);
    }
}

/// Looking up the two hulls of a recorded contact surface, in either order,
/// gives that surface's area.
pub proof fn recorded_contact_area(surfaces: Seq<ContactSurface>, k: int)
    requires
        contacts_ordered(surfaces),
        0 <= k < surfaces.len(),
    ensures
        contact_area(surfaces, surfaces[k].hull_i as int, surfaces[k].hull_j as int)
            == surfaces[k].total_area,
        contact_area(surfaces, surfaces[k].hull_j as int, surfaces[k].hull_i as int)
            == surfaces[k].total_area,
{
    ordered_contact_is_first(surfaces, k);
    first_contact_unique(surfaces, surfaces[k].hull_i as int, surfaces[k].hull_j as int, k);
}

/// Looking up the two hulls of a recorded contact surface gives its faces,
/// the faces of the hull asked for first coming first: `(faces of hull_i,
/// faces of hull_j)` in the stored order, and the two lists swapped when
/// asked the other way round.
pub proof fn recorded_contact_faces(surfaces: Seq<ContactSurface>, k: int)
    requires
        contacts_ordered(surfaces),
        0 <= k < surfaces.len(),
    ensures
        contact_faces(surfaces, surfaces[k].hull_i as int, surfaces[k].hull_j as int) == Some(
            (surfaces[k].face_indices_i@, surfaces[k].face_indices_j@),
        ),
        contact_faces(surfaces, surfaces[k].hull_j as int, surfaces[k].hull_i as int) == Some(
            (surfaces[k].face_indices_j@, surfaces[k].face_indices_i@),
        ),
{
    ordered_contact_is_first(surfaces, k);
    first_contact_unique(surfaces, surfaces[k].hull_i as int, surfaces[k].hull_j as int, k);
}

/// The contact area between two hulls does not depend on the order in which
/// they are named.
pub proof fn contact_area_symmetric(surfaces: Seq<ContactSurface>, i: int, j: int)
    ensures
        contact_area(surfaces, i, j) == contact_area(surfaces, j, i),
{
}

/// The contact faces of two hulls named in the other order are the same
/// faces, swapped.
pub proof fn contact_faces_swapped(surfaces: Seq<ContactSurface>, i: int, j: int)
    requires
        i != j,
    ensures
        contact_faces(surfaces, j, i) == (match contact_faces(surfaces, i, j) {
            Some(f) => Some((f.1, f.0)),
            None => None,
        }),
{
}

/// The contact surfaces that `detect` yields for the hulls `0 .. n`: one per
/// pair `i < j`, in lexicographic order of the pairs, for each pair whose
/// detection found at least one face of hull `i` in contact.
pub open spec fn contacts_detected<F: Fn(usize, usize) -> Option<PairContact>>(
    surfaces: Seq<ContactSurface>,
    detect: F,
    n: int,
) -> bool {
    &&& forall|k: int|
        0 <= k < surfaces.len() ==> {
            &&& 0 <= #[trigger] surfaces[k].hull_i < surfaces[k].hull_j < n
            &&& surfaces[k].face_indices_i@.len() > 0
            &&& call_ensures(
                detect,
                (surfaces[k].hull_i, surfaces[k].hull_j),
                Some(
                    PairContact {
                        face_indices_i: surfaces[k].face_indices_i,
                        face_indices_j: surfaces[k].face_indices_j,
                        total_area: surfaces[k].total_area,
                    },
                ),
            )
        }
    &&& forall|k: int, l: int|
        0 <= k < l < surfaces.len() ==> pair_before(
            surfaces[k].hull_i as int,
            surfaces[k].hull_j as int,
            surfaces[l].hull_i as int,
            surfaces[l].hull_j as int,
        )
    &&& forall|i: usize, j: usize|
        i < j < n && !has_contact(surfaces, i as int, j as int) ==> exists|
            r: Option<PairContact>,
        | #[trigger] call_ensures(detect, (i, j), r) && (r matches Some(c) ==> c.face_indices_i@.len()
            == 0)
}

/// The content of a vessel with the given hulls and perpendiculars and
/// nothing else.
pub open spec fn bare_vessel<H, T, A, D, O>(
    hulls: Seq<H>,
    ap: Option<u64>,
    fp: Option<u64>,
) -> VesselView<H, T, A, D, O> {
    VesselView {
        hulls,
        tanks: Seq::empty(),
        appendages: Seq::empty(),
        deck_edges: Seq::empty(),
        ap,
        fp,
        silhouettes: Seq::empty(),
        downflooding_openings: Seq::empty(),
        contact_surfaces: Seq::empty(),
    }
}

impl<H, T, A, D, O> Vessel<H, T, A, D, O> {
    /// Creates a new vessel with a single hull.
    pub fn new(hull: H) -> (v: Self)
        ensures
            v@ == bare_vessel::<H, T, A, D, O>(seq![hull], None, None),
    {
        let mut hulls = Vec::new();
        hulls.push(hull);
        Vessel {
            hulls,
            tanks: Vec::new(),
            appendages: Vec::new(),
            deck_edges: Vec::new(),
            ap: None,
            fp: None,
            silhouettes: Vec::new(),
            downflooding_openings: Vec::new(),
            contact_surfaces: ContactIndex { surfaces: Vec::new() },
        }
    }

    /// Creates a new vessel with several hulls (catamaran, trimaran), and
    /// pre-computes the contact surfaces between them with `detect` (see
    /// `compute_contact_surfaces`). Fails when no hull is given.
    pub fn new_multi<F: Fn(usize, usize) -> Option<PairContact>>(hulls: Vec<H>, detect: F) -> (r:
        Result<Self, &'static str>)
        requires
            forall|i: usize, j: usize| i < j < hulls@.len() ==> call_requires(detect, (i, j)),
        ensures
            hulls@.len() == 0 <==> r is Err,
            r matches Err(e) ==> e@ == "At least one hull must be provided"@,
            r matches Ok(v) ==> v@ == (VesselView {
                contact_surfaces: v@.contact_surfaces,
                ..bare_vessel::<H, T, A, D, O>(hulls@, None, None)
            }) && contacts_detected(v@.contact_surfaces, detect, hulls@.len() as int),
            hulls@.len() < 2 ==> (r matches Ok(v) ==> v@.contact_surfaces.len() == 0),
    {
        if hulls.len() == 0 {
            return Err("At least one hull must be provided");
        }
        let mut vessel = Vessel {
            hulls,
            tanks: Vec::new(),
            appendages: Vec::new(),
            deck_edges: Vec::new(),
            ap: None,
            fp: None,
            silhouettes: Vec::new(),
            downflooding_openings: Vec::new(),
            contact_surfaces: ContactIndex { surfaces: Vec::new() },
        };
        vessel.compute_contact_surfaces(detect);
        Ok(vessel)
    }

    /// Creates a new vessel with a single hull and perpendicular positions.
    pub fn with_perpendiculars(hull: H, ap: u64, fp: u64) -> (v: Self)
        ensures
            v@ == bare_vessel::<H, T, A, D, O>(seq![hull], Some(ap), Some(fp)),
    {
        let mut v = Self::new(hull);
        v.ap = Some(ap);
        v.fp = Some(fp);
        v
    }

    /// Returns the hull geometries.
    pub fn hulls(&self) -> (r: &[H])
        ensures
            r@ == self@.hulls,
    {
        self.hulls.as_slice()
    }

    /// Returns the hull at `index`; `None` when there is no such hull.
    pub fn hull(&self, index: usize) -> (r: Option<&H>)
        ensures
            index < self@.hulls.len() ==> r == Some(&self@.hulls[index as int]),
            index >= self@.hulls.len() ==> r is None,
    {
        if index < self.hulls.len() {
            Some(&self.hulls[index])
        } else {
            None
        }
    }

    /// Gives mutable access to the hull at `index`, to set its properties
    /// (such as its plate thickness); fails when there is no such hull.
    pub fn hull_mut(&mut self, index: usize) -> (r: Result<&mut H, &'static str>)
        ensures
            index < old(self)@.hulls.len() <==> r is Ok,
            r matches Ok(h) ==> *h == old(self)@.hulls[index as int] && final(self)@ == (VesselView {
                hulls: old(self)@.hulls.update(index as int, *final(h)),
                ..old(self)@
            }),
            r matches Err(e) ==> e@ == "Hull index out of bounds"@ && final(self)@ == old(self)@,
    {
        if index < self.hulls.len() {
            Ok(&mut self.hulls[index])
        } else {
            Err("Hull index out of bounds")
        }
    }

    /// Returns true if this is a multi-hull vessel.
    pub fn is_multihull(&self) -> (r: bool)
        ensures
            r == (self@.hulls.len() > 1),
    {
        self.hulls.len() > 1
    }

    /// Returns the tanks.
    pub fn tanks(&self) -> (r: &[T])
        ensures
            r@ == self@.tanks,
    {
        self.tanks.as_slice()
    }

    /// Returns the aft perpendicular position if it was set explicitly.
    pub fn ap_setting(&self) -> (r: Option<u64>)
        ensures
            r == self@.ap,
    {
        self.ap
    }

    /// Returns the forward perpendicular position if it was set explicitly.
    pub fn fp_setting(&self) -> (r: Option<u64>)
        ensures
            r == self@.fp,
    {
        self.fp
    }

    /// Sets the aft perpendicular position.
    pub fn set_ap(&mut self, ap: u64)
        ensures
            final(self)@ == (VesselView { ap: Some(ap), ..old(self)@ }),
    {
        self.ap = Some(ap);
    }

    /// Sets the forward perpendicular position.
    pub fn set_fp(&mut self, fp: u64)
        ensures
            final(self)@ == (VesselView { fp: Some(fp), ..old(self)@ }),
    {
        self.fp = Some(fp);
    }

    /// Returns a mutable reference to the hulls.
    pub fn hulls_mut(&mut self) -> (r: &mut Vec<H>)
        ensures
            r@ == old(self)@.hulls,
            final(self)@ == (VesselView { hulls: final(r)@, ..old(self)@ }),
    {
        &mut self.hulls
    }

    /// Returns a mutable reference to the tanks.
    pub fn tanks_mut(&mut self) -> (r: &mut Vec<T>)
        ensures
            r@ == old(self)@.tanks,
            final(self)@ == (VesselView { tanks: final(r)@, ..old(self)@ }),
    {
        &mut self.tanks
    }

    // ---------------------------------------------------------------------
    // Tank management
    // ---------------------------------------------------------------------

    /// Adds a tank to the vessel.
    pub fn add_tank(&mut self, tank: T)
        ensures
            final(self)@ == (VesselView { tanks: old(self)@.tanks.push(tank), ..old(self)@ }),
    {
        self.tanks.push(tank);
    }

    /// Removes the tank at `index`; `None` when there is no such tank.
    pub fn remove_tank(&mut self, index: usize) -> (r: Option<T>)
        ensures
            index < old(self)@.tanks.len() ==> r == Some(old(self)@.tanks[index as int])
                && final(self)@ == (VesselView {
                tanks: old(self)@.tanks.remove(index as int),
                ..old(self)@
            }),
            index >= old(self)@.tanks.len() ==> r is None && final(self)@ == old(self)@,
    {
        if index < self.tanks.len() {
            Some(self.tanks.remove(index))
        } else {
            None
        }
    }

    // ---------------------------------------------------------------------
    // Silhouette management
    // ---------------------------------------------------------------------

    /// Adds a wind silhouette profile to the vessel.
    pub fn add_silhouette(&mut self, silhouette: Silhouette)
        ensures
            final(self)@ == (VesselView {
                silhouettes: old(self)@.silhouettes.push(silhouette),
                ..old(self)@
            }),
    {
        self.silhouettes.push(silhouette);
    }

    /// Returns all wind silhouettes.
    pub fn silhouettes(&self) -> (r: &[Silhouette])
        ensures
            r@ == self@.silhouettes,
    {
        self.silhouettes.as_slice()
    }

    /// Returns a mutable reference to the silhouettes.
    pub fn silhouettes_mut(&mut self) -> (r: &mut Vec<Silhouette>)
        ensures
            r@ == old(self)@.silhouettes,
            final(self)@ == (VesselView { silhouettes: final(r)@, ..old(self)@ }),
    {
        &mut self.silhouettes
    }

    /// Returns the number of silhouettes.
    pub fn num_silhouettes(&self) -> (n: usize)
        ensures
            n == self@.silhouettes.len(),
    {
        self.silhouettes.len()
    }

    /// Returns true if there are any silhouettes.
    pub fn has_silhouettes(&self) -> (r: bool)
        ensures
            r == (self@.silhouettes.len() > 0),
    {
        self.silhouettes.len() > 0
    }

    /// Finds the first silhouette with the given name.
    pub fn get_silhouette_by_name(&self, name: &str) -> (r: Option<&Silhouette>)
        ensures
            match r {
                Some(s) => exists|k: int|
                    is_first_silhouette_named(self@.silhouettes, name@, k) && *s
                        == self@.silhouettes[k],
                None => forall|k: int|
                    0 <= k < self@.silhouettes.len() ==> self@.silhouettes[k].name_text()
                        != name@,
            },
    {
        let key = name.to_owned();
        let mut k: usize = 0;
        while k < self.silhouettes.len()
            invariant
                k <= self.silhouettes@.len(),
                key@ == name@,
                forall|l: int| 0 <= l < k ==> self.silhouettes@[l].name_text() != name@,
            decreases self.silhouettes@.len() - k,
        {
            if self.silhouettes[k].name().to_owned() == key {
                assert(is_first_silhouette_named(self@.silhouettes, name@, k as int));
                return Some(&self.silhouettes[k]);
            }
            k = k + 1;
        }
        None
    }

    /// Removes the silhouette at `index`; `None` when there is no such one.
    pub fn remove_silhouette(&mut self, index: usize) -> (r: Option<Silhouette>)
        ensures
            index < old(self)@.silhouettes.len() ==> r == Some(old(self)@.silhouettes[index as int])
                && final(self)@ == (VesselView {
                silhouettes: old(self)@.silhouettes.remove(index as int),
                ..old(self)@
            }),
            index >= old(self)@.silhouettes.len() ==> r is None && final(self)@ == old(self)@,
    {
        if index < self.silhouettes.len() {
            Some(self.silhouettes.remove(index))
        } else {
            None
        }
    }

    /// Removes all silhouettes.
    pub fn clear_silhouettes(&mut self)
        ensures
            final(self)@ == (VesselView { silhouettes: Seq::empty(), ..old(self)@ }),
    {
        self.silhouettes.clear();
    }

    // ---------------------------------------------------------------------
    // Appendage management
    // ---------------------------------------------------------------------

    /// Adds an appendage to the vessel.
    pub fn add_appendage(&mut self, appendage: A)
        ensures
            final(self)@ == (VesselView {
                appendages: old(self)@.appendages.push(appendage),
                ..old(self)@
            }),
    {
        self.appendages.push(appendage);
    }

    /// Returns all appendages.
    pub fn appendages(&self) -> (r: &[A])
        ensures
            r@ == self@.appendages,
    {
        self.appendages.as_slice()
    }

    /// Returns a mutable reference to the appendages.
    pub fn appendages_mut(&mut self) -> (r: &mut Vec<A>)
        ensures
            r@ == old(self)@.appendages,
            final(self)@ == (VesselView { appendages: final(r)@, ..old(self)@ }),
    {
        &mut self.appendages
    }

    /// Returns the number of appendages.
    pub fn num_appendages(&self) -> (n: usize)
        ensures
            n == self@.appendages.len(),
    {
        self.appendages.len()
    }

    /// Removes the appendage at `index`; `None` when there is no such one.
    pub fn delete_appendage(&mut self, index: usize) -> (r: Option<A>)
        ensures
            index < old(self)@.appendages.len() ==> r == Some(old(self)@.appendages[index as int])
                && final(self)@ == (VesselView {
                appendages: old(self)@.appendages.remove(index as int),
                ..old(self)@
            }),
            index >= old(self)@.appendages.len() ==> r is None && final(self)@ == old(self)@,
    {
        if index < self.appendages.len() {
            Some(self.appendages.remove(index))
        } else {
            None
        }
    }

    /// Removes all appendages.
    pub fn clear_appendages(&mut self)
        ensures
            final(self)@ == (VesselView { appendages: Seq::empty(), ..old(self)@ }),
    {
        self.appendages.clear();
    }

    // ---------------------------------------------------------------------
    // Deck edge management
    // ---------------------------------------------------------------------

    /// Adds a deck edge to the vessel.
    pub fn add_deck_edge(&mut self, deck_edge: D)
        ensures
            final(self)@ == (VesselView {
                deck_edges: old(self)@.deck_edges.push(deck_edge),
                ..old(self)@
            }),
    {
        self.deck_edges.push(deck_edge);
    }

    /// Returns all deck edges.
    pub fn deck_edges(&self) -> (r: &[D])
        ensures
            r@ == self@.deck_edges,
    {
        self.deck_edges.as_slice()
    }

    /// Returns a mutable reference to the deck edges.
    pub fn deck_edges_mut(&mut self) -> (r: &mut Vec<D>)
        ensures
            r@ == old(self)@.deck_edges,
            final(self)@ == (VesselView { deck_edges: final(r)@, ..old(self)@ }),
    {
        &mut self.deck_edges
    }

    /// Returns the number of deck edges.
    pub fn num_deck_edges(&self) -> (n: usize)
        ensures
            n == self@.deck_edges.len(),
    {
        self.deck_edges.len()
    }

    /// Returns true if any deck edges are defined.
    pub fn has_deck_edges(&self) -> (r: bool)
        ensures
            r == (self@.deck_edges.len() > 0),
    {
        self.deck_edges.len() > 0
    }

    /// Removes the deck edge at `index`; `None` when there is no such one.
    pub fn delete_deck_edge(&mut self, index: usize) -> (r: Option<D>)
        ensures
            index < old(self)@.deck_edges.len() ==> r == Some(old(self)@.deck_edges[index as int])
                && final(self)@ == (VesselView {
                deck_edges: old(self)@.deck_edges.remove(index as int),
                ..old(self)@
            }),
            index >= old(self)@.deck_edges.len() ==> r is None && final(self)@ == old(self)@,
    {
        if index < self.deck_edges.len() {
            Some(self.deck_edges.remove(index))
        } else {
            None
        }
    }

    /// Removes all deck edges.
    pub fn clear_deck_edges(&mut self)
        ensures
            final(self)@ == (VesselView { deck_edges: Seq::empty(), ..old(self)@ }),
    {
        self.deck_edges.clear();
    }

    // ---------------------------------------------------------------------
    // Downflooding openings management
    // ---------------------------------------------------------------------

    /// Adds a downflooding opening to the vessel.
    pub fn add_downflooding_opening(&mut self, opening: O)
        ensures
            final(self)@ == (VesselView {
                downflooding_openings: old(self)@.downflooding_openings.push(opening),
                ..old(self)@
            }),
    {
        self.downflooding_openings.push(opening);
    }

    /// Returns all downflooding openings.
    pub fn downflooding_openings(&self) -> (r: &[O])
        ensures
            r@ == self@.downflooding_openings,
    {
        self.downflooding_openings.as_slice()
    }

    /// Returns a mutable reference to the downflooding openings.
    pub fn downflooding_openings_mut(&mut self) -> (r: &mut Vec<O>)
        ensures
            r@ == old(self)@.downflooding_openings,
            final(self)@ == (VesselView { downflooding_openings: final(r)@, ..old(self)@ }),
    {
        &mut self.downflooding_openings
    }

    /// Returns the number of downflooding openings.
    pub fn num_downflooding_openings(&self) -> (n: usize)
        ensures
            n == self@.downflooding_openings.len(),
    {
        self.downflooding_openings.len()
    }

    /// Returns true if any downflooding openings are defined.
    pub fn has_downflooding_openings(&self) -> (r: bool)
        ensures
            r == (self@.downflooding_openings.len() > 0),
    {
        self.downflooding_openings.len() > 0
    }

    /// Removes all downflooding openings from the vessel.
    pub fn clear_downflooding_openings(&mut self)
        ensures
            final(self)@ == (VesselView { downflooding_openings: Seq::empty(), ..old(self)@ }),
    {
        self.downflooding_openings.clear();
    }

    // ---------------------------------------------------------------------
    // Contact surfaces management
    // ---------------------------------------------------------------------

    /// Pre-computes the contact surfaces between all hull pairs.
    ///
    /// `detect(i, j)` gives the contact found between hulls `i < j`, or
    /// `None` when the pair is not worth examining; a pair is recorded when
    /// at least one face of hull `i` is in contact.
    pub fn compute_contact_surfaces<F: Fn(usize, usize) -> Option<PairContact>>(
        &mut self,
        detect: F,
    )
        requires
            forall|i: usize, j: usize| i < j < old(self)@.hulls.len() ==> call_requires(detect, (i, j)),
        ensures
            final(self)@ == (VesselView { contact_surfaces: final(self)@.contact_surfaces, ..old(self)@ }),
            contacts_detected(final(self)@.contact_surfaces, detect, old(self)@.hulls.len() as int),
            old(self)@.hulls.len() < 2 ==> final(self)@.contact_surfaces.len() == 0,
    {
        let n = self.hulls.len();
        let mut surfaces: Vec<ContactSurface> = Vec::new();
        let mut i: usize = 0;
        while i < n
            invariant
                n == old(self)@.hulls.len(),
                i <= n,
                forall|a: usize, b: usize| a < b < n ==> call_requires(detect, (a, b)),
                forall|k: int| 0 <= k < surfaces@.len() ==> #[trigger] surfaces@[k].hull_i < i,
                forall|k: int|
                    0 <= k < surfaces@.len() ==> {
                        &&& 0 <= #[trigger] surfaces@[k].hull_i < surfaces@[k].hull_j < n
                        &&& surfaces@[k].face_indices_i@.len() > 0
                        &&& call_ensures(
                            detect,
                            (surfaces@[k].hull_i, surfaces@[k].hull_j),
                            Some(
                                PairContact {
                                    face_indices_i: surfaces@[k].face_indices_i,
                                    face_indices_j: surfaces@[k].face_indices_j,
                                    total_area: surfaces@[k].total_area,
                                },
                            ),
                        )
                    },
                forall|k: int, l: int|
                    0 <= k < l < surfaces@.len() ==> pair_before(
                        surfaces@[k].hull_i as int,
                        surfaces@[k].hull_j as int,
                        surfaces@[l].hull_i as int,
                        surfaces@[l].hull_j as int,
                    ),
                forall|a: usize, b: usize|
                    a < b < n && a < i && !has_contact(surfaces@, a as int, b as int) ==> exists|
                        r: Option<PairContact>,
                    | #[trigger] call_ensures(detect, (a, b), r) && (r matches Some(c)
                        ==> c.face_indices_i@.len() == 0),
            decreases n - i,
        {
            let mut j: usize = i + 1;
            while j < n
                invariant
                    n == old(self)@.hulls.len(),
                    i < n,
                    i + 1 <= j <= n,
                    forall|a: usize, b: usize| a < b < n ==> call_requires(detect, (a, b)),
                    forall|k: int|
                        0 <= k < surfaces@.len() ==> pair_before(
                            #[trigger] surfaces@[k].hull_i as int,
                            surfaces@[k].hull_j as int,
                            i as int,
                            j as int,
                        ),
                    forall|k: int|
                        0 <= k < surfaces@.len() ==> {
                            &&& 0 <= #[trigger] surfaces@[k].hull_i < surfaces@[k].hull_j < n
                            &&& surfaces@[k].face_indices_i@.len() > 0
                            &&& call_ensures(
                                detect,
                                (surfaces@[k].hull_i, surfaces@[k].hull_j),
                                Some(
                                    PairContact {
                                        face_indices_i: surfaces@[k].face_indices_i,
                                        face_indices_j: surfaces@[k].face_indices_j,
                                        total_area: surfaces@[k].total_area,
                                    },
                                ),
                            )
                        },
                    forall|k: int, l: int|
                        0 <= k < l < surfaces@.len() ==> pair_before(
                            surfaces@[k].hull_i as int,
                            surfaces@[k].hull_j as int,
                            surfaces@[l].hull_i as int,
                            surfaces@[l].hull_j as int,
                        ),
                    forall|a: usize, b: usize|
                        a < b < n && pair_before(a as int, b as int, i as int, j as int)
                            && !has_contact(surfaces@, a as int, b as int) ==> exists|
                            r: Option<PairContact>,
                        | #[trigger] call_ensures(detect, (a, b), r) && (r matches Some(c)
                            ==> c.face_indices_i@.len() == 0),
                decreases n - j,
            {
                let found = detect(i, j);
                let ghost before = surfaces@;
                match found {
                    Some(contact) => {
                        if contact.face_indices_i.len() > 0 {
                            let ghost c = contact;
                            surfaces.push(
                                ContactSurface {
                                    hull_i: i,
                                    hull_j: j,
                                    face_indices_i: contact.face_indices_i,
                                    face_indices_j: contact.face_indices_j,
                                    total_area: contact.total_area,
                                },
                            );
                            proof {
                                let last = before.len() as int;
                                assert(surfaces@[last].hull_i == i && surfaces@[last].hull_j == j);
                                assert(PairContact {
                                    face_indices_i: surfaces@[last].face_indices_i,
                                    face_indices_j: surfaces@[last].face_indices_j,
                                    total_area: surfaces@[last].total_area,
                                } == c);
                                assert forall|k: int| 0 <= k < before.len() implies surfaces@[k]
                                    == before[k] by {}
                                assert forall|a: usize, b: usize|
                                    a < b < n && pair_before(a as int, b as int, i as int, (j + 1) as int)
                                        && !has_contact(surfaces@, a as int, b as int) implies exists|
                                        r: Option<PairContact>,
                                    | #[trigger] call_ensures(detect, (a, b), r) && (r matches Some(
                                        c,
                                    ) ==> c.face_indices_i@.len() == 0) by {
                                    if a == i && b == j {
                                        assert(surfaces@[last].hull_i == a);
                                    } else {
                                        assert(pair_before(a as int, b as int, i as int, j as int));
                                        if has_contact(before, a as int, b as int) {
                                            let k = choose|k: int|
                                                0 <= k < before.len() && #[trigger] before[k].hull_i
                                                    == a && before[k].hull_j == b;
                                            assert(surfaces@[k] == before[k]);
                                        }
                                    }
                                }
                            }
                        } else {
                            proof {
                                assert forall|a: usize, b: usize|
                                    a < b < n && pair_before(a as int, b as int, i as int, (j + 1) as int)
                                        && !has_contact(surfaces@, a as int, b as int) implies exists|
                                        r: Option<PairContact>,
                                    | #[trigger] call_ensures(detect, (a, b), r) && (r matches Some(
                                        c,
                                    ) ==> c.face_indices_i@.len() == 0) by {
                                    if a == i && b == j {
                                        assert(call_ensures(detect, (a, b), Some(contact)));
                                    }
                                }
                            }
                        }
                    },
                    None => {
                        proof {
                            assert forall|a: usize, b: usize|
                                a < b < n && pair_before(a as int, b as int, i as int, (j + 1) as int)
                                    && !has_contact(surfaces@, a as int, b as int) implies exists|
                                    r: Option<PairContact>,
                                | #[trigger] call_ensures(detect, (a, b), r) && (r matches Some(c)
                                    ==> c.face_indices_i@.len() == 0) by {
                                if a == i && b == j {
                                    assert(call_ensures(detect, (a, b), None::<PairContact>));
                                }
                            }
                        }
                    },
                }
                j = j + 1;
            }
            i = i + 1;
        }
        proof {
            if surfaces@.len() > 0 {
                assert(0 <= surfaces@[0].hull_i < surfaces@[0].hull_j < n);
            }
        }
        self.contact_surfaces = ContactIndex { surfaces };
    }

    /// Returns the pre-computed contact surfaces.
    pub fn contact_surfaces(&self) -> (r: &[ContactSurface])
        ensures
            r@ == self@.contact_surfaces,
            contacts_ordered(r@),
    {
        proof {
            use_type_invariant(&self.contact_surfaces);
        }
        self.contact_surfaces.surfaces.as_slice()
    }

    /// Returns true if contact surfaces have been pre-computed.
    pub fn has_contact_surfaces(&self) -> (r: bool)
        ensures
            r == (self@.contact_surfaces.len() > 0),
    {
        self.contact_surfaces.surfaces.len() > 0
    }

    /// Clears all pre-computed contact surfaces.
    pub fn clear_contact_surfaces(&mut self)
        ensures
            final(self)@ == (VesselView { contact_surfaces: Seq::empty(), ..old(self)@ }),
    {
        self.contact_surfaces = ContactIndex { surfaces: Vec::new() };
    }

    /// Position of the first contact surface for the pair `(lo, hi)`.
    fn find_contact(&self, lo: usize, hi: usize) -> (r: Option<usize>)
        ensures
            match r {
                Some(k) => is_first_contact(self@.contact_surfaces, lo as int, hi as int, k as int),
                None => !has_contact(self@.contact_surfaces, lo as int, hi as int),
            },
    {
        let mut k: usize = 0;
        while k < self.contact_surfaces.surfaces.len()
            invariant
                k <= self.contact_surfaces.surfaces@.len(),
                forall|l: int|
                    0 <= l < k ==> !(self.contact_surfaces.surfaces@[l].hull_i == lo
                        && self.contact_surfaces.surfaces@[l].hull_j == hi),
            decreases self.contact_surfaces.surfaces@.len() - k,
        {
            let cs = &self.contact_surfaces.surfaces[k];
            if cs.hull_i == lo && cs.hull_j == hi {
                return Some(k);
            }
            k = k + 1;
        }
        None
    }

    /// Returns the pre-computed contact area for a hull pair (in either
    /// order); the pattern of `+0` when no contact was found for the pair.
    pub fn get_contact_area_for_pair(&self, hull_i: usize, hull_j: usize) -> (area: u64)
        ensures
            area == contact_area(self@.contact_surfaces, hull_i as int, hull_j as int),
            hull_i == hull_j ==> area == 0u64,
            !has_contact(
                self@.contact_surfaces,
                pair_low(hull_i as int, hull_j as int),
                pair_high(hull_i as int, hull_j as int),
            ) ==> area == 0u64,
            forall|k: int|
                0 <= k < self@.contact_surfaces.len() && #[trigger] self@.contact_surfaces[k].hull_i
                    == pair_low(hull_i as int, hull_j as int) && self@.contact_surfaces[k].hull_j
                    == pair_high(hull_i as int, hull_j as int) ==> area
                    == self@.contact_surfaces[k].total_area,
    {
        proof {
            use_type_invariant(&self.contact_surfaces);
            contact_with_itself_is_empty(self@.contact_surfaces, hull_i as int);
            contact_area_is_recorded(self@.contact_surfaces, hull_i as int, hull_j as int);
            assert forall|k: int|
                0 <= k < self@.contact_surfaces.len() && #[trigger] self@.contact_surfaces[k].hull_i
                    == pair_low(hull_i as int, hull_j as int) && self@.contact_surfaces[k].hull_j
                    == pair_high(hull_i as int, hull_j as int) implies contact_area(
                self@.contact_surfaces,
                hull_i as int,
                hull_j as int,
            ) == self@.contact_surfaces[k].total_area by {
                recorded_contact_area(self@.contact_surfaces, k);
            }
        }
        let (lo, hi) = if hull_i <= hull_j {
            (hull_i, hull_j)
        } else {
            (hull_j, hull_i)
        };
        match self.find_contact(lo, hi) {
            Some(k) => {
                proof {
                    first_contact_unique(self@.contact_surfaces, lo as int, hi as int, k as int);
                }
                self.contact_surfaces.surfaces[k].total_area
            },
            None => 0u64,
        }
    }

    /// Returns the contact face indices of `hull_i` and of `hull_j`, in that
    /// order, for the pair; `None` when no contact was found for the pair.
    pub fn get_contact_face_indices(&self, hull_i: usize, hull_j: usize) -> (r: Option<
        (&[usize], &[usize]),
    >)
        ensures
            match r {
                Some((a, b)) => contact_faces(self@.contact_surfaces, hull_i as int, hull_j as int)
                    == Some((a@, b@)),
                None => contact_faces(self@.contact_surfaces, hull_i as int, hull_j as int) is None,
            },
            hull_i == hull_j ==> r is None,
            r is None <==> !has_contact(
                self@.contact_surfaces,
                pair_low(hull_i as int, hull_j as int),
                pair_high(hull_i as int, hull_j as int),
            ),
            forall|k: int|
                0 <= k < self@.contact_surfaces.len() && #[trigger] self@.contact_surfaces[k].hull_i
                    == hull_i && self@.contact_surfaces[k].hull_j == hull_j ==> r is Some
                    && r.unwrap().0@ == self@.contact_surfaces[k].face_indices_i@
                    && r.unwrap().1@ == self@.contact_surfaces[k].face_indices_j@,
            forall|k: int|
                0 <= k < self@.contact_surfaces.len() && #[trigger] self@.contact_surfaces[k].hull_i
                    == hull_j && self@.contact_surfaces[k].hull_j == hull_i ==> r is Some
                    && r.unwrap().0@ == self@.contact_surfaces[k].face_indices_j@
                    && r.unwrap().1@ == self@.contact_surfaces[k].face_indices_i@,
    {
        proof {
            use_type_invariant(&self.contact_surfaces);
            contact_with_itself_is_empty(self@.contact_surfaces, hull_i as int);
            assert forall|k: int|
                0 <= k < self@.contact_surfaces.len() && #[trigger] self@.contact_surfaces[k].hull_i
                    == hull_i && self@.contact_surfaces[k].hull_j == hull_j implies contact_faces(
                self@.contact_surfaces,
                hull_i as int,
                hull_j as int,
            ) == Some(
                (
                    self@.contact_surfaces[k].face_indices_i@,
                    self@.contact_surfaces[k].face_indices_j@,
                ),
            ) by {
                recorded_contact_faces(self@.contact_surfaces, k);
            }
            assert forall|k: int|
                0 <= k < self@.contact_surfaces.len() && #[trigger] self@.contact_surfaces[k].hull_i
                    == hull_j && self@.contact_surfaces[k].hull_j == hull_i implies contact_faces(
                self@.contact_surfaces,
                hull_i as int,
                hull_j as int,
            ) == Some(
                (
                    self@.contact_surfaces[k].face_indices_j@,
                    self@.contact_surfaces[k].face_indices_i@,
                ),
            ) by {
                recorded_contact_faces(self@.contact_surfaces, k);
            }
        }
        let (lo, hi) = if hull_i <= hull_j {
            (hull_i, hull_j)
        } else {
            (hull_j, hull_i)
        };
        match self.find_contact(lo, hi) {
            Some(k) => {
                proof {
                    first_contact_unique(self@.contact_surfaces, lo as int, hi as int, k as int);
                }
                let cs = &self.contact_surfaces.surfaces[k];
                if hull_i <= hull_j {
                    Some((cs.face_indices_i.as_slice(), cs.face_indices_j.as_slice()))
                } else {
                    Some((cs.face_indices_j.as_slice(), cs.face_indices_i.as_slice()))
                }
            },
            None => None,
        }
    }

}

} // verus!
