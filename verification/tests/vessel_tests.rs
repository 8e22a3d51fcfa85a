use navaltoolbox::names::position_of_name;
use navaltoolbox::silhouette::Silhouette;
use navaltoolbox::vessel::{PairContact, Vessel};

type TestVessel = Vessel<&'static str, String, String, String, String>;

fn silhouette(name: &str) -> Silhouette {
    Silhouette::new(Vec::new(), name.to_string())
}

#[test]
fn new_vessel_has_one_hull_and_nothing_else() {
    let v = TestVessel::new("hull");
    assert_eq!(v.hulls(), &["hull"]);
    assert!(!v.is_multihull());
    assert!(v.tanks().is_empty());
    assert_eq!(v.num_appendages(), 0);
    assert_eq!(v.num_deck_edges(), 0);
    assert_eq!(v.num_silhouettes(), 0);
    assert_eq!(v.num_downflooding_openings(), 0);
    assert!(!v.has_contact_surfaces());
    assert_eq!(v.ap_setting(), None);
    assert_eq!(v.fp_setting(), None);
}

#[test]
fn new_multi_requires_a_hull() {
    let r = TestVessel::new_multi(Vec::new(), |_, _| None);
    assert_eq!(r.err(), Some("At least one hull must be provided"));
    let v = TestVessel::new_multi(vec!["port", "starboard"], |_, _| None).unwrap();
    assert!(v.is_multihull());
    assert_eq!(v.hulls().len(), 2);
}

#[test]
fn perpendiculars_are_kept() {
    let mut v = TestVessel::with_perpendiculars("hull", 10.0f64.to_bits(), 110.0f64.to_bits());
    assert_eq!(v.ap_setting(), Some(10.0f64.to_bits()));
    assert_eq!(v.fp_setting(), Some(110.0f64.to_bits()));
    v.set_ap(5.0f64.to_bits());
    v.set_fp(95.0f64.to_bits());
    assert_eq!(v.ap_setting(), Some(5.0f64.to_bits()));
    assert_eq!(v.fp_setting(), Some(95.0f64.to_bits()));
}

#[test]
fn tanks_add_and_remove_by_index() {
    let mut v = TestVessel::new("hull");
    v.add_tank("FO_1".to_string());
    v.add_tank("FW_1".to_string());
    v.add_tank("BW_1".to_string());
    assert_eq!(v.remove_tank(5), None);
    assert_eq!(v.remove_tank(1), Some("FW_1".to_string()));
    assert_eq!(v.tanks(), &["FO_1".to_string(), "BW_1".to_string()]);
    v.tanks_mut().push("X".to_string());
    assert_eq!(v.tanks().len(), 3);
    assert_eq!(position_of_name(v.tanks(), "BW_1"), Some(1));
    assert_eq!(position_of_name(v.tanks(), "ZZ"), None);
}

#[test]
fn silhouettes_management() {
    let mut v = TestVessel::new("hull");
    assert!(!v.has_silhouettes());
    v.add_silhouette(silhouette("hull"));
    v.add_silhouette(silhouette("deckhouse"));
    v.add_silhouette(silhouette("hull"));
    assert!(v.has_silhouettes());
    assert_eq!(v.num_silhouettes(), 3);
    let found = v.get_silhouette_by_name("hull").unwrap();
    assert!(std::ptr::eq(found, &v.silhouettes()[0]));
    assert!(v.get_silhouette_by_name("mast").is_none());
    let removed = v.remove_silhouette(0).unwrap();
    assert_eq!(removed.name(), "hull");
    assert!(v.remove_silhouette(7).is_none());
    assert_eq!(v.silhouettes()[0].name(), "deckhouse");
    v.silhouettes_mut()[0].set_name("bridge");
    assert_eq!(v.silhouettes()[0].name(), "bridge");
    v.clear_silhouettes();
    assert_eq!(v.num_silhouettes(), 0);
}

#[test]
fn appendages_management() {
    let mut v = TestVessel::new("hull");
    v.add_appendage("rudder".to_string());
    v.add_appendage("keel".to_string());
    assert_eq!(v.num_appendages(), 2);
    let idx = position_of_name(v.appendages(), "keel").unwrap();
    assert_eq!(v.delete_appendage(idx), Some("keel".to_string()));
    assert_eq!(v.delete_appendage(3), None);
    v.appendages_mut().push("skeg".to_string());
    assert_eq!(v.appendages(), &["rudder".to_string(), "skeg".to_string()]);
    v.clear_appendages();
    assert_eq!(v.num_appendages(), 0);
}

#[test]
fn deck_edges_management() {
    let mut v = TestVessel::new("hull");
    assert!(!v.has_deck_edges());
    v.add_deck_edge("port".to_string());
    v.add_deck_edge("stbd".to_string());
    assert!(v.has_deck_edges());
    assert_eq!(v.delete_deck_edge(0), Some("port".to_string()));
    assert_eq!(v.delete_deck_edge(1), None);
    assert_eq!(v.deck_edges(), &["stbd".to_string()]);
    v.deck_edges_mut().clear();
    assert_eq!(v.num_deck_edges(), 0);
    v.add_deck_edge("x".to_string());
    v.clear_deck_edges();
    assert!(!v.has_deck_edges());
}

#[test]
fn downflooding_openings_management() {
    let mut v = TestVessel::new("hull");
    assert!(!v.has_downflooding_openings());
    v.add_downflooding_opening("vent".to_string());
    v.downflooding_openings_mut().push("hatch".to_string());
    assert!(v.has_downflooding_openings());
    assert_eq!(v.num_downflooding_openings(), 2);
    assert_eq!(v.downflooding_openings(), &["vent".to_string(), "hatch".to_string()]);
    v.clear_downflooding_openings();
    assert_eq!(v.num_downflooding_openings(), 0);
}

#[test]
fn hulls_mut_edits_hulls() {
    let mut v = TestVessel::new("a");
    v.hulls_mut().push("b");
    assert!(v.is_multihull());
    assert_eq!(v.hulls(), &["a", "b"]);
}

fn contact(faces_i: Vec<usize>, faces_j: Vec<usize>, area: f64) -> Option<PairContact> {
    Some(PairContact { face_indices_i: faces_i, face_indices_j: faces_j, total_area: area.to_bits() })
}

#[test]
fn contact_surfaces_are_recorded_per_pair_in_order() {
    let mut v = TestVessel::new("a");
    v.hulls_mut().push("b");
    v.hulls_mut().push("c");
    let mut calls = std::cell::RefCell::new(Vec::new());
    v.compute_contact_surfaces(|i, j| {
        calls.borrow_mut().push((i, j));
        match (i, j) {
            (0, 1) => contact(vec![3, 4], vec![7], 2.5),
            (0, 2) => contact(vec![], vec![1], 9.0),
            (1, 2) => contact(vec![0], vec![5, 6], 1.25),
            _ => None,
        }
    });
    assert_eq!(calls.get_mut().clone(), vec![(0, 1), (0, 2), (1, 2)]);
    let cs = v.contact_surfaces();
    assert_eq!(cs.len(), 2);
    assert_eq!((cs[0].hull_i, cs[0].hull_j), (0, 1));
    assert_eq!((cs[1].hull_i, cs[1].hull_j), (1, 2));
    assert!(v.has_contact_surfaces());

    assert_eq!(f64::from_bits(v.get_contact_area_for_pair(0, 1)), 2.5);
    assert_eq!(f64::from_bits(v.get_contact_area_for_pair(1, 0)), 2.5);
    assert_eq!(f64::from_bits(v.get_contact_area_for_pair(2, 1)), 1.25);
    assert_eq!(f64::from_bits(v.get_contact_area_for_pair(0, 2)), 0.0);

    let (fi, fj) = v.get_contact_face_indices(0, 1).unwrap();
    assert_eq!((fi, fj), (&[3usize, 4][..], &[7usize][..]));
    let (fi, fj) = v.get_contact_face_indices(1, 0).unwrap();
    assert_eq!((fi, fj), (&[7usize][..], &[3usize, 4][..]));
    assert!(v.get_contact_face_indices(0, 2).is_none());

    v.clear_contact_surfaces();
    assert!(!v.has_contact_surfaces());
    assert_eq!(v.get_contact_area_for_pair(0, 1), 0);
}

#[test]
fn single_hull_has_no_contact_surfaces() {
    let mut v = TestVessel::new("a");
    v.compute_contact_surfaces(|_, _| contact(vec![1], vec![1], 1.0));
    assert!(!v.has_contact_surfaces());
}

#[test]
fn recomputing_contact_surfaces_replaces_them() {
    let mut v = TestVessel::new_multi(vec!["a", "b"], |_, _| contact(vec![1], vec![2], 3.0)).unwrap();
    assert_eq!(v.contact_surfaces().len(), 1);
    assert_eq!(f64::from_bits(v.get_contact_area_for_pair(1, 0)), 3.0);
    v.compute_contact_surfaces(|_, _| None);
    assert!(v.contact_surfaces().is_empty());
}

#[test]
fn new_multi_skips_pairs_without_contact_faces() {
    let v = TestVessel::new_multi(vec!["a", "b", "c"], |i, j| {
        if (i, j) == (0, 2) {
            contact(vec![9], vec![8], 4.0)
        } else {
            contact(vec![], vec![], 0.0)
        }
    })
    .unwrap();
    assert_eq!(v.contact_surfaces().len(), 1);
    assert_eq!((v.contact_surfaces()[0].hull_i, v.contact_surfaces()[0].hull_j), (0, 2));
    assert_eq!(v.get_contact_area_for_pair(0, 1), 0);
}

#[test]
fn hull_paired_with_itself_has_no_contact() {
    let v = TestVessel::new_multi(vec!["a", "b"], |_, _| contact(vec![1], vec![2], 3.0)).unwrap();
    assert_eq!(v.get_contact_area_for_pair(0, 0), 0);
    assert_eq!(v.get_contact_area_for_pair(1, 1), 0);
    assert!(v.get_contact_face_indices(1, 1).is_none());
}

#[test]
fn cloned_vessel_keeps_its_content() {
    let mut v = TestVessel::new_multi(vec!["a", "b"], |_, _| contact(vec![4], vec![5, 6], 2.0)).unwrap();
    v.set_ap(1.5f64.to_bits());
    v.add_tank("T1".to_string());
    v.add_silhouette(silhouette("profile"));
    let w = v.clone();
    assert_eq!(w.hulls(), v.hulls());
    assert_eq!(w.tanks(), v.tanks());
    assert_eq!(w.ap_setting(), Some(1.5f64.to_bits()));
    assert_eq!(w.fp_setting(), None);
    assert_eq!(w.silhouettes()[0].name(), "profile");
    assert_eq!(w.contact_surfaces().len(), 1);
    assert_eq!(f64::from_bits(w.get_contact_area_for_pair(1, 0)), 2.0);
    let (fi, fj) = w.get_contact_face_indices(0, 1).unwrap();
    assert_eq!((fi, fj), (&[4usize][..], &[5usize, 6][..]));
}

#[test]
fn vessel_debug_lists_hulls() {
    let v = TestVessel::new("hull_a");
    assert!(format!("{:?}", v).contains("hull_a"));
}

#[test]
fn hull_access_by_index() {
    let mut v = TestVessel::new_multi(vec!["a", "b"], |_, _| None).unwrap();
    assert_eq!(v.hull(1), Some(&"b"));
    assert_eq!(v.hull(2), None);
    *v.hull_mut(0).unwrap() = "c";
    assert_eq!(v.hulls(), &["c", "b"]);
    assert_eq!(v.hull_mut(2).err(), Some("Hull index out of bounds"));
    assert_eq!(v.hulls(), &["c", "b"]);
}
