use naturalneighbor::{Location, Triangulation};

const HULL: usize = usize::MAX;

fn square() -> Triangulation {
    Triangulation::new(4, vec![0, 1, 2, 0, 2, 3], vec![HULL, HULL, 3, 2, HULL, HULL]).unwrap()
}

#[test]
fn locate_outside_without_candidates() {
    let m = square();
    assert_eq!(m.locate(&vec![], &|_s: usize| false), Location::Outside);
}

#[test]
fn locate_single_candidate_starts_there() {
    let m = square();
    assert_eq!(m.locate(&vec![1], &|_s: usize| false), Location::Start(3));
    assert_eq!(m.locate(&vec![0], &|_s: usize| true), Location::Start(0));
}

#[test]
fn locate_on_shared_vertex() {
    let m = square();
    assert_eq!(m.locate(&vec![0, 1], &|s: usize| s == 2), Location::OnSite(2));
    assert_eq!(m.locate(&vec![1, 0], &|s: usize| s == 3), Location::OnSite(3));
}

#[test]
fn locate_on_shared_edge_is_ambiguous() {
    let m = square();
    assert_eq!(m.locate(&vec![0, 1], &|_s: usize| false), Location::Ambiguous);
}

#[test]
fn probes_pick_first_single_candidate() {
    let m = square();
    let probes = vec![vec![0, 1], vec![], vec![1], vec![0]];
    assert_eq!(m.resolve_probes(&probes), Location::Start(3));
}

#[test]
fn probes_without_single_candidate_stay_outside() {
    let m = square();
    let probes = vec![vec![0, 1], vec![], vec![1, 0], vec![]];
    assert_eq!(m.resolve_probes(&probes), Location::Outside);
    assert_eq!(m.resolve_probes(&vec![]), Location::Outside);
}
