use lib::ca_eagl_layer::{
    LayerGeometry,
    LayerHost,
    Rejection,
    WindowHost,
    drawable_height,
    drawable_width,
    eagl_layer_init,
    eagl_layer_init_with_layer,
    find_fullscreen_eagl_layer,
    find_fullscreen_eagl_layer_inner,
    get_pixels_vec_for_presenting,
    is_retained_backing,
    present_pixels,
    search_terminates,
    set_drawable_properties,
    set_layer_geometry,
};
use lib::env::{Environment, Options};
use lib::objc::{HostObject, Id, NIL};

fn env(force: bool) -> Environment {
    Environment::new(
        "iPhone1,2",
        134217728,
        42,
        0x10_0000,
        0x20_0000,
        Options { force_composition: force, claim_network_reachable: false },
    )
}

const FITS: LayerGeometry = LayerGeometry {
    size_matches_screen: true,
    origin_is_zero: true,
    anchor_is_centre: true,
    position_is_centre: true,
    fully_opaque: true,
    transform_is_identity: true,
};

fn layer(e: &mut Environment, sublayers: Vec<Id>, is_eagl: bool, geometry: LayerGeometry) -> Id {
    e.objc.alloc_object(HostObject::Layer(LayerHost {
        sublayers,
        hidden: false,
        opaque: true,
        is_eagl,
        geometry,
        bounds_width: 320,
        bounds_height: 480,
        presented_pixels: None,
        gles_texture_is_up_to_date: true,
        retained_backing: None,
    }))
}

fn window(e: &mut Environment, hidden: bool, layer: Id) -> Id {
    let w = e.objc.alloc_object(HostObject::Window(WindowHost { hidden, layer }));
    e.windows.push(w);
    w
}

#[test]
fn finds_the_fullscreen_eagl_layer() {
    let mut e = env(false);
    let gl = layer(&mut e, vec![], true, FITS);
    let root = layer(&mut e, vec![gl], false, FITS);
    let w = window(&mut e, false, root);
    let (found, explanation) = find_fullscreen_eagl_layer(&mut e);
    assert_eq!(found, gl);
    assert!(explanation.is_none());
    let s = find_fullscreen_eagl_layer_inner(&e);
    assert_eq!(s.window, w);
    assert_eq!(s.visited, vec![root, gl]);
    assert_eq!(s.rejection, None);
}

#[test]
fn search_stops_at_a_rotated_layer_and_explains_once() {
    let mut e = env(false);
    let gl = layer(&mut e, vec![], true, FITS);
    let rotated = LayerGeometry { transform_is_identity: false, ..FITS };
    let root = layer(&mut e, vec![gl], false, rotated);
    window(&mut e, false, root);
    let (found, explanation) = find_fullscreen_eagl_layer(&mut e);
    assert_eq!(found, NIL);
    let explanation = explanation.unwrap();
    assert_eq!(explanation.rejection, Some(Rejection::Transformed));
    assert_eq!(explanation.visited, vec![root]);
    let (found, explanation) = find_fullscreen_eagl_layer(&mut e);
    assert_eq!(found, NIL);
    assert!(explanation.is_none());
}

#[test]
fn search_rejections_in_order() {
    let mut e = env(false);
    let g = LayerGeometry { size_matches_screen: false, origin_is_zero: false, ..FITS };
    let l = layer(&mut e, vec![], true, g);
    window(&mut e, false, l);
    assert_eq!(find_fullscreen_eagl_layer_inner(&e).rejection, Some(Rejection::WrongSize));

    let mut e = env(false);
    let plain = layer(&mut e, vec![], false, FITS);
    window(&mut e, false, plain);
    assert_eq!(find_fullscreen_eagl_layer_inner(&e).rejection, Some(Rejection::InnermostNotEagl));
}

#[test]
fn front_most_visible_window_is_searched() {
    let mut e = env(false);
    let gl = layer(&mut e, vec![], true, FITS);
    let other = layer(&mut e, vec![], false, FITS);
    let back = window(&mut e, false, gl);
    window(&mut e, true, other);
    let s = find_fullscreen_eagl_layer_inner(&e);
    assert_eq!(s.window, back);
    assert_eq!(s.layer, gl);
}

#[test]
fn no_window_or_forced_composition() {
    let e = env(false);
    assert_eq!(find_fullscreen_eagl_layer_inner(&e).rejection, Some(Rejection::NoVisibleWindow));
    let mut e = env(true);
    let gl = layer(&mut e, vec![], true, FITS);
    window(&mut e, false, gl);
    assert_eq!(find_fullscreen_eagl_layer_inner(&e).rejection, Some(Rejection::ForcedComposition));
}

#[test]
fn presented_pixels_come_back_out() {
    let mut e = env(false);
    let l = layer(&mut e, vec![], true, FITS);
    assert_eq!(drawable_width(&mut e, l), 320);
    assert_eq!(drawable_height(&mut e, l), 480);
    assert!(get_pixels_vec_for_presenting(&mut e, l).is_empty());
    present_pixels(&mut e, l, vec![1, 2, 3, 4], 1, 1);
    assert_eq!(drawable_width(&mut e, l), 1);
    assert_eq!(drawable_height(&mut e, l), 1);
    assert_eq!(get_pixels_vec_for_presenting(&mut e, l), vec![1, 2, 3, 4]);
    assert!(get_pixels_vec_for_presenting(&mut e, l).is_empty());
    assert_eq!(drawable_width(&mut e, l), 320);
}

#[test]
fn retained_backing_defaults_to_no() {
    let mut e = env(false);
    let l = layer(&mut e, vec![], true, FITS);
    assert!(!is_retained_backing(&mut e, l));
    if let HostObject::Layer(mut h) = e.objc.replace_host(l, HostObject::Plain) {
        h.retained_backing = Some(true);
        e.objc.replace_host(l, HostObject::Layer(h));
    }
    assert!(is_retained_backing(&mut e, l));
    assert!(!is_retained_backing(&mut e, NIL));
}

#[test]
fn search_terminates_unless_the_layers_go_round_in_a_circle() {
    let mut e = env(false);
    assert!(search_terminates(&e));
    let gl = layer(&mut e, vec![], true, FITS);
    let root = layer(&mut e, vec![gl], false, FITS);
    window(&mut e, false, root);
    assert!(search_terminates(&e));
    // Make the innermost layer its parent's parent.
    let mut h = match e.objc.replace_host(gl, HostObject::Plain) {
        HostObject::Layer(h) => h,
        _ => panic!(),
    };
    h.sublayers = vec![root];
    e.objc.replace_host(gl, HostObject::Layer(h));
    assert!(!search_terminates(&e));
    // With composition forced there is no walk at all.
    e.options.force_composition = true;
    assert!(search_terminates(&e));
    e.options.force_composition = false;
    // A layer turned down stops the walk before it can go round.
    let rotated = LayerGeometry { transform_is_identity: false, ..FITS };
    let mut h = match e.objc.replace_host(root, HostObject::Plain) {
        HostObject::Layer(h) => h,
        _ => panic!(),
    };
    h.geometry = rotated;
    e.objc.replace_host(root, HostObject::Layer(h));
    assert!(search_terminates(&e));
}

fn host(e: &Environment, id: Id) -> &LayerHost {
    match &e.objc.get(id).unwrap().host {
        HostObject::Layer(h) => h,
        _ => panic!("not a layer"),
    }
}

#[test]
fn drawable_properties_decide_retained_backing() {
    let mut e = env(false);
    let gl = layer(&mut e, vec![], true, FITS);
    assert!(!is_retained_backing(&mut e, gl));
    set_drawable_properties(&mut e, gl, Some(true));
    assert!(is_retained_backing(&mut e, gl));
    set_drawable_properties(&mut e, gl, Some(false));
    assert!(!is_retained_backing(&mut e, gl));
    set_drawable_properties(&mut e, gl, None);
    assert!(!is_retained_backing(&mut e, gl));
}

#[test]
fn eagl_layers_start_opaque_and_copy_drawable_properties() {
    let mut e = env(false);
    let gl = layer(&mut e, vec![], true, FITS);
    let mut h = match e.objc.replace_host(gl, HostObject::Plain) {
        HostObject::Layer(h) => h,
        _ => panic!(),
    };
    h.opaque = false;
    e.objc.replace_host(gl, HostObject::Layer(h));
    assert_eq!(eagl_layer_init(&mut e, gl), gl);
    assert!(host(&e, gl).opaque);
    set_drawable_properties(&mut e, gl, Some(true));
    let copy = layer(&mut e, vec![], true, FITS);
    assert_eq!(eagl_layer_init_with_layer(&mut e, copy, gl), copy);
    assert!(is_retained_backing(&mut e, copy));
    // A plain layer's properties are not copied.
    let plain = layer(&mut e, vec![], false, FITS);
    let mut h = match e.objc.replace_host(plain, HostObject::Plain) {
        HostObject::Layer(h) => h,
        _ => panic!(),
    };
    h.retained_backing = Some(true);
    e.objc.replace_host(plain, HostObject::Layer(h));
    let other = layer(&mut e, vec![], true, FITS);
    eagl_layer_init_with_layer(&mut e, other, plain);
    assert!(!is_retained_backing(&mut e, other));
    assert!(host(&e, other).opaque);
}

#[test]
fn recorded_geometry_decides_the_search() {
    let mut e = env(false);
    let off = LayerGeometry { size_matches_screen: false, ..FITS };
    let gl = layer(&mut e, vec![], true, off);
    window(&mut e, false, gl);
    assert_eq!(find_fullscreen_eagl_layer_inner(&e).layer, NIL);
    set_layer_geometry(&mut e, gl, FITS, 640, 960);
    assert_eq!(find_fullscreen_eagl_layer_inner(&e).layer, gl);
    assert_eq!(drawable_width(&mut e, gl), 640);
    assert_eq!(drawable_height(&mut e, gl), 960);
}
