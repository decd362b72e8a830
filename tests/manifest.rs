use chiselc::manifest::Manifest;

fn strings(v: &[&str]) -> Vec<String> {
    v.iter().map(|s| s.to_string()).collect()
}

#[test]
fn manifest_keeps_its_directories() {
    let m = Manifest::new(strings(&["t1", "t2"]), strings(&["e"]), strings(&[]));
    assert_eq!(m.types(), strings(&["t1", "t2"]));
    assert_eq!(m.endpoints(), strings(&["e"]));
    assert!(m.policies().is_empty());
}

#[test]
fn fallback_manifest() {
    let m = Manifest::fallback();
    assert_eq!(m.types(), strings(&["./types"]));
    assert_eq!(m.endpoints(), strings(&["./endpoints"]));
    assert_eq!(m.policies(), strings(&["./policies"]));
}

#[test]
fn paths_of_listings_in_order() {
    let listings = vec![strings(&["a/x.ts", "a/y.ts"]), strings(&[]), strings(&["b/z.ts"])];
    assert_eq!(Manifest::dirs_to_paths(&listings), strings(&["a/x.ts", "a/y.ts", "b/z.ts"]));
    assert!(Manifest::dirs_to_paths(&vec![]).is_empty());
}

