//! `CAEAGLLayer`: the search for a layer that can be presented directly,
//! and the pixel buffer `EAGLContext` presents through it.

use crate::cf_stream::only_objc_changed;
use crate::env::Environment;
use crate::objc::{entry, is_live, with_host, HostObject, Id, ObjectEntry, NIL};
use vstd::prelude::*;

verus! {

/// How a layer's geometry compares with the screen's. The comparisons are
/// between floating-point values and are made where the geometry is set;
/// each says whether one condition for covering the screen exactly holds.
#[derive(Clone, Copy, Debug, PartialEq, Eq, Structural)]
pub struct LayerGeometry {
    /// Its bounds are the size of the screen.
    pub size_matches_screen: bool,
    /// Its bounds start at the origin.
    pub origin_is_zero: bool,
    /// Its anchor point is `(0.5, 0.5)`.
    pub anchor_is_centre: bool,
    /// It is positioned at the centre of the screen.
    pub position_is_centre: bool,
    /// Its opacity is exactly 1.
    pub fully_opaque: bool,
    /// Its affine transform is the identity.
    pub transform_is_identity: bool,
}

/// A rendered frame: RGBA8 pixels and their dimensions.
pub struct PresentedPixels {
    pub pixels: Vec<u8>,
    pub width: u32,
    pub height: u32,
}

pub struct LayerHost {
    /// Front-most last.
    pub sublayers: Vec<Id>,
    pub hidden: bool,
    pub opaque: bool,
    /// Whether the layer is a `CAEAGLLayer`.
    pub is_eagl: bool,
    pub geometry: LayerGeometry,
    /// The bounds' size, in whole pixels.
    pub bounds_width: u32,
    pub bounds_height: u32,
    pub presented_pixels: Option<PresentedPixels>,
    pub gles_texture_is_up_to_date: bool,
    /// `kEAGLDrawablePropertyRetainedBacking` from the drawable properties,
    /// if they say.
    pub retained_backing: Option<bool>,
}

pub struct WindowHost {
    pub hidden: bool,
    pub layer: Id,
}

/// Why no layer can be presented directly.
#[derive(Clone, Copy, Debug, PartialEq, Eq, Structural)]
pub enum Rejection {
    /// `--force-composition` was given.
    ForcedComposition,
    /// Not one window is visible.
    NoVisibleWindow,
    /// A layer on the way down is not the size of the screen.
    WrongSize,
    /// ...does not start at the origin.
    NotAtOrigin,
    /// ...is not anchored at its centre.
    AnchorNotCentre,
    /// ...is not at the centre of the screen.
    NotCentred,
    /// ...is hidden.
    Hidden,
    /// ...is not fully opaque.
    NotFullyOpaque,
    /// ...carries an affine transform.
    Transformed,
    /// The innermost layer is not opaque.
    InnermostNotOpaque,
    /// The innermost layer is not a `CAEAGLLayer`: something covers the one
    /// that draws.
    InnermostNotEagl,
}

/// The outcome of a search: the layer found (`NIL` for none), the window
/// searched under, the layers looked at on the way down, and why the search
/// stopped short.
pub struct FullscreenSearch {
    pub layer: Id,
    pub window: Id,
    pub visited: Vec<Id>,
    pub rejection: Option<Rejection>,
}

/// The layer `id` names, if it names one.
pub open spec fn layer_host(s: Seq<Option<ObjectEntry>>, id: Id) -> Option<LayerHost> {
    if is_live(s, id) {
        match entry(s, id).host {
            HostObject::Layer(h) => Some(h),
            _ => None,
        }
    } else {
        None
    }
}

/// The window `id` names, if it names one.
pub open spec fn window_host(s: Seq<Option<ObjectEntry>>, id: Id) -> Option<WindowHost> {
    if is_live(s, id) {
        match entry(s, id).host {
            HostObject::Window(h) => Some(h),
            _ => None,
        }
    } else {
        None
    }
}

/// Why a layer on the way down rules out presenting directly, checked in
/// this order. An id that names no layer has no geometry to speak of and is
/// the wrong size.
pub open spec fn layer_rejection(s: Seq<Option<ObjectEntry>>, layer: Id) -> Option<Rejection> {
    let ho = layer_host(s, layer);
    if ho is None {
        Some(Rejection::WrongSize)
    } else {
        let h = ho->0;
        let g = h.geometry;
        if !g.size_matches_screen {
            Some(Rejection::WrongSize)
        } else if !g.origin_is_zero {
            Some(Rejection::NotAtOrigin)
        } else if !g.anchor_is_centre {
            Some(Rejection::AnchorNotCentre)
        } else if !g.position_is_centre {
            Some(Rejection::NotCentred)
        } else if h.hidden {
            Some(Rejection::Hidden)
        } else if !g.fully_opaque {
            Some(Rejection::NotFullyOpaque)
        } else if !g.transform_is_identity {
            Some(Rejection::Transformed)
        } else {
            None
        }
    }
}

/// The front-most sublayer of a layer, if it has any.
pub open spec fn last_sublayer(s: Seq<Option<ObjectEntry>>, layer: Id) -> Option<Id> {
    let ho = layer_host(s, layer);
    if ho is Some && ho->0.sublayers@.len() > 0 {
        Some(ho->0.sublayers@.last())
    } else {
        None
    }
}

/// Walking down from `layer` through front-most sublayers stops within
/// `fuel` layers: at one that is ruled out, or at one with no sublayers.
pub open spec fn walk_stops(s: Seq<Option<ObjectEntry>>, layer: Id, fuel: nat) -> bool
    decreases fuel,
{
    fuel > 0 && (layer_rejection(s, layer) is Some || last_sublayer(s, layer) is None || walk_stops(
        s,
        last_sublayer(s, layer)->0,
        (fuel - 1) as nat,
    ))
}

/// The walk down from `layer`: the layers looked at, why it stopped short
/// if it did, and the innermost layer reached.
pub open spec fn walk(s: Seq<Option<ObjectEntry>>, layer: Id, fuel: nat) -> (Seq<Id>, Option<Rejection>, Id)
    decreases fuel,
{
    if fuel == 0 {
        (Seq::empty(), None, layer)
    } else if layer_rejection(s, layer) is Some {
        (seq![layer], layer_rejection(s, layer), layer)
    } else if last_sublayer(s, layer) is None {
        (seq![layer], None, layer)
    } else {
        let rest = walk(s, last_sublayer(s, layer)->0, (fuel - 1) as nat);
        (seq![layer] + rest.0, rest.1, rest.2)
    }
}

/// Whether a window counts as visible. An id that names no window is not
/// one.
pub open spec fn window_visible(s: Seq<Option<ObjectEntry>>, w: Id) -> bool {
    window_host(s, w) is Some && !window_host(s, w)->0.hidden
}

/// The front-most visible window.
pub open spec fn top_window(s: Seq<Option<ObjectEntry>>, ws: Seq<Id>) -> Option<Id>
    decreases ws.len(),
{
    if ws.len() == 0 {
        None
    } else if window_visible(s, ws.last()) {
        Some(ws.last())
    } else {
        top_window(s, ws.drop_last())
    }
}

/// How many layers a walk may need: more than there are objects, so it can
/// only run out by going round in a circle.
pub open spec fn walk_fuel(s: Seq<Option<ObjectEntry>>) -> nat {
    s.len() + 1
}

/// The layers below the front-most visible window do not go round in a
/// circle before the walk stops.
pub open spec fn search_ok(env: Environment) -> bool {
    let s = env.objc@;
    !env.options.force_composition && top_window(s, env.windows@) is Some ==> walk_stops(
        s,
        window_host(s, top_window(s, env.windows@)->0)->0.layer,
        walk_fuel(s),
    )
}

/// The search for an opaque `CAEAGLLayer` covering the whole screen: under
/// the front-most visible window, down through front-most sublayers, every
/// layer must be the size of the screen, centred, unrotated, visible and
/// fully opaque; the innermost must be opaque and a `CAEAGLLayer`. Returns
/// (layer found or `NIL`, window, layers looked at, why it stopped short).
pub open spec fn search(env: Environment) -> (Id, Id, Seq<Id>, Option<Rejection>) {
    let s = env.objc@;
    if env.options.force_composition {
        (NIL, NIL, Seq::empty(), Some(Rejection::ForcedComposition))
    } else if top_window(s, env.windows@) is None {
        (NIL, NIL, Seq::empty(), Some(Rejection::NoVisibleWindow))
    } else {
        let w = top_window(s, env.windows@)->0;
        let (visited, rejection, inner) = walk(s, window_host(s, w)->0.layer, walk_fuel(s));
        if rejection is Some {
            (NIL, w, visited, rejection)
        } else if !layer_host(s, inner)->0.opaque {
            (NIL, w, visited, Some(Rejection::InnermostNotOpaque))
        } else if !layer_host(s, inner)->0.is_eagl {
            (NIL, w, visited, Some(Rejection::InnermostNotEagl))
        } else {
            (inner, w, visited, None)
        }
    }
}

/// The view of a search's outcome.
pub open spec fn search_view(r: FullscreenSearch) -> (Id, Id, Seq<Id>, Option<Rejection>) {
    (r.layer, r.window, r.visited@, r.rejection)
}

proof fn lemma_walk_step(s: Seq<Option<ObjectEntry>>, layer: Id, fuel: nat)
    requires
        fuel > 0,
        layer_rejection(s, layer) is None,
        last_sublayer(s, layer) is Some,
    ensures
        walk(s, layer, fuel) == ({
            let rest = walk(s, last_sublayer(s, layer)->0, (fuel - 1) as nat);
            (seq![layer] + rest.0, rest.1, rest.2)
        }),
        walk_stops(s, layer, fuel) ==> walk_stops(s, last_sublayer(s, layer)->0, (fuel - 1) as nat),
{
}

fn find_top_window(env: &Environment) -> (r: Option<(Id, Id)>)
    ensures
        r is None <==> top_window(env.objc@, env.windows@) is None,
        r matches Some((w, l)) ==> w == top_window(env.objc@, env.windows@)->0 && l == window_host(
            env.objc@,
            w,
        )->0.layer,
{
    let mut i: usize = env.windows.len();
    assert(env.windows@.take(i as int) =~= env.windows@);
    while i > 0
        invariant
            i <= env.windows@.len(),
            top_window(env.objc@, env.windows@) == top_window(env.objc@, env.windows@.take(i as int)),
        decreases i,
    {
        let w = env.windows[i - 1];
        let ghost ws = env.windows@.take(i as int);
        assert(ws.last() == w);
        assert(ws.drop_last() =~= env.windows@.take(i - 1));
        match env.objc.get(w) {
            Some(e) => match &e.host {
                HostObject::Window(h) => {
                    if !h.hidden {
                        return Some((w, h.layer));
                    }
                },
                _ => {},
            },
            None => {},
        }
        i = i - 1;
    }
    None
}

/// What the search makes of one layer: why it is ruled out, if it is, and
/// its front-most sublayer, if it has one.
fn layer_step(env: &Environment, layer: Id) -> (r: (Option<Rejection>, Option<Id>))
    ensures
        r.0 == layer_rejection(env.objc@, layer),
        r.1 == last_sublayer(env.objc@, layer),
{
    match env.objc.get(layer) {
        Some(e) => match &e.host {
            HostObject::Layer(h) => {
                let g = h.geometry;
                let rejection = if !g.size_matches_screen {
                    Some(Rejection::WrongSize)
                } else if !g.origin_is_zero {
                    Some(Rejection::NotAtOrigin)
                } else if !g.anchor_is_centre {
                    Some(Rejection::AnchorNotCentre)
                } else if !g.position_is_centre {
                    Some(Rejection::NotCentred)
                } else if h.hidden {
                    Some(Rejection::Hidden)
                } else if !g.fully_opaque {
                    Some(Rejection::NotFullyOpaque)
                } else if !g.transform_is_identity {
                    Some(Rejection::Transformed)
                } else {
                    None
                };
                let n = h.sublayers.len();
                let next = if n > 0 {
                    Some(h.sublayers[n - 1])
                } else {
                    None
                };
                (rejection, next)
            },
            _ => (Some(Rejection::WrongSize), None),
        },
        None => (Some(Rejection::WrongSize), None),
    }
}

/// Whether the search can run to its end: false exactly when the layers
/// below the front-most visible window go round in a circle before the walk
/// down through them stops, where the search would never finish.
pub fn search_terminates(env: &Environment) -> (r: bool)
    ensures
        r == search_ok(*env),
{
    if env.options.force_composition {
        return true;
    }
    let start = match find_top_window(env) {
        Some((_, l)) => l,
        None => {
            return true;
        },
    };
    let ghost s = env.objc@;
    let mut remaining: usize = env.objc.len();
    let mut layer = start;
    loop
        invariant
            s == env.objc@,
            !env.options.force_composition,
            top_window(s, env.windows@) is Some,
            start == window_host(s, top_window(s, env.windows@)->0)->0.layer,
            walk_stops(s, start, walk_fuel(s)) == walk_stops(s, layer, (remaining + 1) as nat),
        decreases remaining,
    {
        let (rejection, next) = layer_step(env, layer);
        if rejection.is_some() {
            return true;
        }
        match next {
            None => {
                return true;
            },
            Some(n) => {
                if remaining == 0 {
                    assert(!walk_stops(s, n, 0));
                    return false;
                }
                remaining = remaining - 1;
                layer = n;
            },
        }
    }
}

/// Search for the layer, as [search] says.
pub fn find_fullscreen_eagl_layer_inner(env: &Environment) -> (r: FullscreenSearch)
    requires
        search_ok(*env),
    ensures
        search_view(r) == search(*env),
{
    if env.options.force_composition {
        return FullscreenSearch { layer: NIL, window: NIL, visited: Vec::new(), rejection: Some(Rejection::ForcedComposition) };
    }
    let (window, start) = match find_top_window(env) {
        Some(p) => p,
        None => {
            return FullscreenSearch { layer: NIL, window: NIL, visited: Vec::new(), rejection: Some(Rejection::NoVisibleWindow) };
        },
    };
    let ghost s = env.objc@;
    let ghost total = walk(s, start, walk_fuel(s));
    let mut visited: Vec<Id> = Vec::new();
    let mut layer = start;
    let ghost mut fuel: nat = walk_fuel(s);
    loop
        invariant_except_break
            total == walk(s, start, walk_fuel(s)),
            walk_stops(s, layer, fuel),
            ({
                let rest = walk(s, layer, fuel);
                total == (visited@ + rest.0, rest.1, rest.2)
            }),
        invariant
            s == env.objc@,
            !env.options.force_composition,
            top_window(s, env.windows@) == Some(window),
            start == window_host(s, window)->0.layer,
        ensures
            total == (visited@, None::<Rejection>, layer),
            layer_host(s, layer) is Some,
        decreases fuel,
    {
        let (rejection, next) = layer_step(env, layer);
        assert(rejection == layer_rejection(s, layer));
        let ghost before = visited@;
        visited.push(layer);
        if rejection.is_some() {
            assert(walk(s, layer, fuel) == (seq![layer], rejection, layer));
            assert(before + seq![layer] =~= visited@);
            return FullscreenSearch { layer: NIL, window, visited, rejection };
        }
        assert(next == last_sublayer(s, layer));
        match next {
            Some(n) => {
                proof {
                    lemma_walk_step(s, layer, fuel);
                    let rest = walk(s, n, (fuel - 1) as nat);
                    assert(before + (seq![layer] + rest.0) =~= visited@ + rest.0);
                    fuel = (fuel - 1) as nat;
                }
                layer = n;
            },
            None => {
                assert(walk(s, layer, fuel) == (seq![layer], None::<Rejection>, layer));
                assert(before + seq![layer] =~= visited@);
                break;
            },
        }
    }
    let (opaque, is_eagl) = match env.objc.get(layer) {
        Some(e) => match &e.host {
            HostObject::Layer(h) => (h.opaque, h.is_eagl),
            _ => {
                assert(false);
                (false, false)
            },
        },
        None => {
            assert(false);
            (false, false)
        },
    };
    if !opaque {
        return FullscreenSearch { layer: NIL, window, visited, rejection: Some(Rejection::InnermostNotOpaque) };
    }
    if !is_eagl {
        return FullscreenSearch { layer: NIL, window, visited, rejection: Some(Rejection::InnermostNotEagl) };
    }
    FullscreenSearch { layer, window, visited, rejection: None }
}

/// If there is an opaque `CAEAGLLayer` that covers the entire screen, this
/// returns it, and otherwise `NIL`. The first time the search comes up
/// empty its outcome is handed back too, to say what it saw and which
/// condition turned it down; after that, only the layer.
pub fn find_fullscreen_eagl_layer(env: &mut Environment) -> (r: (Id, Option<FullscreenSearch>))
    requires
        search_ok(*old(env)),
    ensures
        r.0 == search(*old(env)).0,
        (r.0 == NIL && !old(env).fullscreen_search_reported) ==> {
            &&& r.1 is Some
            &&& search_view(r.1->0) == search(*old(env))
            &&& *final(env) == (Environment { fullscreen_search_reported: true, ..*old(env) })
        },
        !(r.0 == NIL && !old(env).fullscreen_search_reported) ==> r.1 is None && *final(env)
            == *old(env),
{
    let found = find_fullscreen_eagl_layer_inner(env);
    if found.layer == NIL && !env.fullscreen_search_reported {
        env.fullscreen_search_reported = true;
        return (NIL, Some(found));
    }
    (found.layer, None)
}

// MARK: - Pixel buffer

/// The store with the layer `id` replaced by `h`, if `id` names a layer.
pub open spec fn with_layer(s: Seq<Option<ObjectEntry>>, id: Id, h: LayerHost) -> Seq<Option<ObjectEntry>> {
    if layer_host(s, id) is Some {
        with_host(s, id, HostObject::Layer(h))
    } else {
        s
    }
}

/// The pixels waiting in a layer to be presented; none for an id that
/// names no layer.
pub open spec fn pending_pixels(s: Seq<Option<ObjectEntry>>, layer: Id) -> Seq<u8> {
    let ho = layer_host(s, layer);
    if ho is Some && ho->0.presented_pixels is Some {
        ho->0.presented_pixels->0.pixels@
    } else {
        Seq::empty()
    }
}

/// The store once the layer's pixels are taken out.
pub open spec fn pixels_taken(s: Seq<Option<ObjectEntry>>, layer: Id) -> Seq<Option<ObjectEntry>> {
    with_layer(s, layer, LayerHost { presented_pixels: None, ..layer_host(s, layer)->0 })
}

/// The store once a frame is presented through the layer: the pixels are
/// stored and the texture made from the last ones is stale.
pub open spec fn pixels_presented(s: Seq<Option<ObjectEntry>>, layer: Id, pixels: Vec<u8>, width: u32, height: u32) -> Seq<Option<ObjectEntry>> {
    with_layer(
        s,
        layer,
        LayerHost {
            presented_pixels: Some(PresentedPixels { pixels, width, height }),
            gles_texture_is_up_to_date: false,
            ..layer_host(s, layer)->0
        },
    )
}

/// The drawable's size in pixels: that of the frame presented, or else of
/// the layer's bounds.
pub open spec fn drawable_size(s: Seq<Option<ObjectEntry>>, layer: Id) -> (u32, u32) {
    let ho = layer_host(s, layer);
    if ho is None {
        (0, 0)
    } else if ho->0.presented_pixels is Some {
        (ho->0.presented_pixels->0.width, ho->0.presented_pixels->0.height)
    } else {
        (ho->0.bounds_width, ho->0.bounds_height)
    }
}

/// Take the pixel buffer out of the layer, to be refilled by the next
/// frame and handed back with [present_pixels].
pub fn get_pixels_vec_for_presenting(env: &mut Environment, layer: Id) -> (r: Vec<u8>)
    ensures
        r@ == pending_pixels(old(env).objc@, layer),
        final(env).objc@ == pixels_taken(old(env).objc@, layer),
        only_objc_changed(*old(env), *final(env)),
{
    let is_layer = match env.objc.get(layer) {
        Some(e) => match &e.host {
            HostObject::Layer(_) => true,
            _ => false,
        },
        None => false,
    };
    if !is_layer {
        return Vec::new();
    }
    match env.objc.replace_host(layer, HostObject::Plain) {
        HostObject::Layer(h) => {
            let LayerHost {
                sublayers,
                hidden,
                opaque,
                is_eagl,
                geometry,
                bounds_width,
                bounds_height,
                presented_pixels,
                gles_texture_is_up_to_date,
                retained_backing,
            } = h;
            let host = LayerHost {
                sublayers,
                hidden,
                opaque,
                is_eagl,
                geometry,
                bounds_width,
                bounds_height,
                presented_pixels: None,
                gles_texture_is_up_to_date,
                retained_backing,
            };
            let _ = env.objc.replace_host(layer, HostObject::Layer(host));
            proof {
                let s = old(env).objc@;
                assert(env.objc@ =~= pixels_taken(s, layer));
            }
            match presented_pixels {
                Some(p) => p.pixels,
                None => Vec::new(),
            }
        },
        _ => {
            assert(false);
            Vec::new()
        },
    }
}

/// Store a newly rendered frame (RGBA8) in the layer, which makes the
/// texture made from the last one stale.
pub fn present_pixels(env: &mut Environment, layer: Id, pixels: Vec<u8>, width: u32, height: u32)
    ensures
        final(env).objc@ == pixels_presented(old(env).objc@, layer, pixels, width, height),
        only_objc_changed(*old(env), *final(env)),
{
    let is_layer = match env.objc.get(layer) {
        Some(e) => match &e.host {
            HostObject::Layer(_) => true,
            _ => false,
        },
        None => false,
    };
    if !is_layer {
        return ;
    }
    match env.objc.replace_host(layer, HostObject::Plain) {
        HostObject::Layer(h) => {
            let ghost p = pixels;
            let host = LayerHost {
                presented_pixels: Some(PresentedPixels { pixels, width, height }),
                gles_texture_is_up_to_date: false,
                ..h
            };
            let _ = env.objc.replace_host(layer, HostObject::Layer(host));
            proof {
                let s = old(env).objc@;
                assert(env.objc@ =~= pixels_presented(s, layer, p, width, height));
            }
        },
        _ => {
            assert(false);
        },
    }
}

/// Take the layer `layer` out of the store to change it.
fn take_layer(env: &mut Environment, layer: Id) -> (r: Option<LayerHost>)
    ensures
        r == layer_host(old(env).objc@, layer),
        r is Some ==> final(env).objc@ == with_host(old(env).objc@, layer, HostObject::Plain),
        r is None ==> final(env).objc@ == old(env).objc@,
        only_objc_changed(*old(env), *final(env)),
{
    let is_layer = match env.objc.get(layer) {
        Some(e) => match &e.host {
            HostObject::Layer(_) => true,
            _ => false,
        },
        None => false,
    };
    if !is_layer {
        return None;
    }
    match env.objc.replace_host(layer, HostObject::Plain) {
        HostObject::Layer(h) => Some(h),
        _ => {
            assert(false);
            None
        },
    }
}

/// Put a layer taken out with [take_layer] back, changed to `h`.
fn put_layer(env: &mut Environment, layer: Id, h: LayerHost, Ghost(orig): Ghost<Seq<Option<ObjectEntry>>>)
    requires
        layer_host(orig, layer) is Some,
        old(env).objc@ == with_host(orig, layer, HostObject::Plain),
    ensures
        final(env).objc@ == with_layer(orig, layer, h),
        only_objc_changed(*old(env), *final(env)),
{
    let _ = env.objc.replace_host(layer, HostObject::Layer(h));
    assert(env.objc@ =~= with_layer(orig, layer, h));
}

/// `-[CAEAGLLayer init]`: unlike a plain layer, it starts opaque.
pub fn eagl_layer_init(env: &mut Environment, layer: Id) -> (r: Id)
    ensures
        r == layer,
        final(env).objc@ == with_layer(old(env).objc@, layer, LayerHost { opaque: true, ..layer_host(old(env).objc@, layer)->0 }),
        only_objc_changed(*old(env), *final(env)),
{
    if let Some(h) = take_layer(env, layer) {
        put_layer(env, layer, LayerHost { opaque: true, ..h }, Ghost(old(env).objc@));
    }
    layer
}

/// The store after `-[CAEAGLLayer initWithLayer:]`: opaque, and with the
/// drawable properties of `source` when that is a `CAEAGLLayer` that has
/// any.
pub open spec fn initialized_with_layer(s: Seq<Option<ObjectEntry>>, layer: Id, source: Id) -> Seq<Option<ObjectEntry>> {
    let s1 = with_layer(s, layer, LayerHost { opaque: true, ..layer_host(s, layer)->0 });
    let src = layer_host(s1, source);
    if src is Some && src->0.is_eagl && src->0.retained_backing is Some {
        with_layer(s1, layer, LayerHost { retained_backing: src->0.retained_backing, ..layer_host(s1, layer)->0 })
    } else {
        s1
    }
}

/// `-[CAEAGLLayer initWithLayer:]`: opaque, taking a copy of the drawable
/// properties of the layer it is made from when that is a `CAEAGLLayer`.
pub fn eagl_layer_init_with_layer(env: &mut Environment, layer: Id, source: Id) -> (r: Id)
    ensures
        r == layer,
        final(env).objc@ == initialized_with_layer(old(env).objc@, layer, source),
        only_objc_changed(*old(env), *final(env)),
{
    eagl_layer_init(env, layer);
    let copied = match env.objc.get(source) {
        Some(e) => match &e.host {
            HostObject::Layer(h) => if h.is_eagl {
                h.retained_backing
            } else {
                None
            },
            _ => None,
        },
        None => None,
    };
    if copied.is_some() {
        let ghost mid = env.objc@;
        if let Some(h) = take_layer(env, layer) {
            put_layer(env, layer, LayerHost { retained_backing: copied, ..h }, Ghost(mid));
        }
    }
    layer
}

/// `-[CAEAGLLayer setDrawableProperties:]`. The caller reads the
/// dictionary; the layer keeps what it says of
/// `kEAGLDrawablePropertyRetainedBacking`, `None` where the properties are
/// `nil` or do not say.
pub fn set_drawable_properties(env: &mut Environment, layer: Id, retained_backing: Option<bool>)
    ensures
        final(env).objc@ == with_layer(
            old(env).objc@,
            layer,
            LayerHost { retained_backing, ..layer_host(old(env).objc@, layer)->0 },
        ),
        only_objc_changed(*old(env), *final(env)),
{
    if let Some(h) = take_layer(env, layer) {
        put_layer(env, layer, LayerHost { retained_backing, ..h }, Ghost(old(env).objc@));
    }
}

/// Record how the layer's geometry compares with the screen, and its
/// bounds in whole pixels, as measured where the geometry is set; the
/// search reads them.
pub fn set_layer_geometry(env: &mut Environment, layer: Id, geometry: LayerGeometry, bounds_width: u32, bounds_height: u32)
    ensures
        final(env).objc@ == with_layer(
            old(env).objc@,
            layer,
            LayerHost { geometry, bounds_width, bounds_height, ..layer_host(old(env).objc@, layer)->0 },
        ),
        only_objc_changed(*old(env), *final(env)),
{
    if let Some(h) = take_layer(env, layer) {
        put_layer(env, layer, LayerHost { geometry, bounds_width, bounds_height, ..h }, Ghost(old(env).objc@));
    }
}

/// Whether the layer's backing store is kept after presentation:
/// `kEAGLDrawablePropertyRetainedBacking` is set and says yes.
pub fn is_retained_backing(env: &mut Environment, layer: Id) -> (r: bool)
    ensures
        r == (layer_host(old(env).objc@, layer) is Some && layer_host(old(env).objc@, layer)->0.retained_backing
            == Some(true)),
        *final(env) == *old(env),
{
    match env.objc.get(layer) {
        Some(e) => match &e.host {
            HostObject::Layer(h) => match h.retained_backing {
                Some(b) => b,
                None => false,
            },
            _ => false,
        },
        None => false,
    }
}

/// The drawable's width in pixels: the presented frame's if there is one,
/// otherwise the layer bounds'.
pub fn drawable_width(env: &mut Environment, layer: Id) -> (r: u32)
    ensures
        r == drawable_size(old(env).objc@, layer).0,
        *final(env) == *old(env),
{
    match env.objc.get(layer) {
        Some(e) => match &e.host {
            HostObject::Layer(h) => match &h.presented_pixels {
                Some(p) => p.width,
                None => h.bounds_width,
            },
            _ => 0,
        },
        None => 0,
    }
}

/// The drawable's height in pixels.
pub fn drawable_height(env: &mut Environment, layer: Id) -> (r: u32)
    ensures
        r == drawable_size(old(env).objc@, layer).1,
        *final(env) == *old(env),
{
    match env.objc.get(layer) {
        Some(e) => match &e.host {
            HostObject::Layer(h) => match &h.presented_pixels {
                Some(p) => p.height,
                None => h.bounds_height,
            },
            _ => 0,
        },
        None => 0,
    }
}

/// A frame presented through a layer is the one taken out of it next, and
/// the drawable is then the frame's size.
pub proof fn lemma_present_then_take(s: Seq<Option<ObjectEntry>>, layer: Id, pixels: Vec<u8>, width: u32, height: u32)
    requires
        layer_host(s, layer) is Some,
    ensures
        pending_pixels(pixels_presented(s, layer, pixels, width, height), layer) == pixels@,
        drawable_size(pixels_presented(s, layer, pixels, width, height), layer) == (width, height),
        pending_pixels(pixels_taken(pixels_presented(s, layer, pixels, width, height), layer), layer)
            == Seq::<u8>::empty(),
{
}

/// A layer the search finds can be presented directly: it is an opaque
/// `CAEAGLLayer` reached from the front-most visible window with no layer on
/// the way ruled out.
pub proof fn lemma_found_layer_is_presentable(env: Environment)
    requires
        search_ok(env),
        search(env).0 != NIL,
    ensures
        !env.options.force_composition,
        top_window(env.objc@, env.windows@) is Some,
        layer_host(env.objc@, search(env).0) is Some,
        layer_host(env.objc@, search(env).0)->0.opaque,
        layer_host(env.objc@, search(env).0)->0.is_eagl,
        search(env).3 is None,
{
    let s = env.objc@;
    let w = top_window(s, env.windows@)->0;
    lemma_walk_ends_at_layer(s, window_host(s, w)->0.layer, walk_fuel(s));
}

/// A walk that stops without ruling anything out ends at a layer.
proof fn lemma_walk_ends_at_layer(s: Seq<Option<ObjectEntry>>, layer: Id, fuel: nat)
    requires
        walk_stops(s, layer, fuel),
        walk(s, layer, fuel).1 is None,
    ensures
        layer_host(s, walk(s, layer, fuel).2) is Some,
    decreases fuel,
{
    if layer_rejection(s, layer) is None && last_sublayer(s, layer) is Some {
        lemma_walk_ends_at_layer(s, last_sublayer(s, layer)->0, (fuel - 1) as nat);
    }
}

/// What `setDrawableProperties:` records of the retained backing is what
/// `is_retained_backing` then reports: yes only when the properties say yes.
pub proof fn lemma_retained_backing_reads_back(s: Seq<Option<ObjectEntry>>, layer: Id, retained_backing: Option<bool>)
    requires
        layer_host(s, layer) is Some,
    ensures
        ({
            let s1 = with_layer(s, layer, LayerHost { retained_backing, ..layer_host(s, layer)->0 });
            &&& layer_host(s1, layer) is Some
            &&& (layer_host(s1, layer)->0.retained_backing == Some(true)) == (retained_backing == Some(true))
            &&& layer_host(s1, layer)->0.presented_pixels == layer_host(s, layer)->0.presented_pixels
        }),
{
}

/// The search goes down through the front-most sublayer, the last in a
/// layer's list: a layer that is not ruled out and has sublayers is followed
/// by its last sublayer, and a walk from it visits that sublayer next.
pub proof fn lemma_search_descends_into_front_most_sublayer(s: Seq<Option<ObjectEntry>>, layer: Id, fuel: nat)
    requires
        layer_host(s, layer) is Some,
        layer_host(s, layer)->0.sublayers@.len() > 0,
    ensures
        ({
            let subs = layer_host(s, layer)->0.sublayers@;
            &&& last_sublayer(s, layer) == Some(subs[subs.len() - 1])
            &&& (layer_rejection(s, layer) is None && fuel >= 2) ==> {
                &&& walk(s, layer, fuel).0.len() >= 2
                &&& walk(s, layer, fuel).0[0] == layer
                &&& walk(s, layer, fuel).0[1] == subs[subs.len() - 1]
            }
        }),
{
    let subs = layer_host(s, layer)->0.sublayers@;
    if layer_rejection(s, layer) is None && fuel >= 2 {
        let next = subs[subs.len() - 1];
        let rest = walk(s, next, (fuel - 1) as nat);
        assert(rest.0.len() >= 1 && rest.0[0] == next);
        assert(walk(s, layer, fuel).0 == seq![layer] + rest.0);
    }
}

} // verus!
