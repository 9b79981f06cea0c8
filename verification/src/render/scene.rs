//! When a view's scene is built, rebuilt, resized or torn down.
//!
//! The engine caches a missing font or image for good, so a scene is parsed
//! only once everything it waits for is there. Every gate is evaluated before a
//! live scene is torn down: a reload that has to wait leaves the old scene on
//! screen.

use std::sync::Arc;

use vstd::prelude::*;

use crate::keyed::{has_key, key_index, map_of, KeyedSet};
use crate::render::view::{flags_from, view_flags, NoesisView, UVec2};
use crate::scalar::{Float32, SameValue};
use crate::strings::str_eq;
use crate::xaml::{lemma_told, same_buffer, told_same, SharedXamlMap};

verus! {

/// What has been loaded so far.
pub struct Assets {
    /// XAML by URI.
    pub xaml: SharedXamlMap,
    /// `(folder, filename)` of every font.
    pub fonts: KeyedSet<(String, String)>,
    /// URI of every image.
    pub images: KeyedSet<String>,
}

/// A live scene.
pub struct SceneState {
    /// Size of its intermediates.
    pub size: UVec2,
    /// URI it was parsed from.
    pub built_for_uri: String,
    /// Markup it was parsed from.
    pub built_bytes: Arc<Vec<u8>>,
    /// Whether its renderer was initialized.
    pub renderer_initialized: bool,
    /// Which of the two intermediates is painted next.
    pub write_second: bool,
    /// Render flags set last.
    pub applied_flags: u32,
    /// DPI scale set last.
    pub applied_scale: Float32,
}

/// What to do with a view's scene.
#[derive(Clone, Copy, PartialEq, Eq, Debug, Structural)]
pub enum SceneAction {
    /// Take it down.
    Teardown,
    /// Leave things as they are.
    Keep,
    /// Give it the configured size.
    Resize,
    /// Take the old one down, if there is one, and build it.
    Rebuild,
}

/// Whether some font lies in `folder`.
pub open spec fn has_folder(fonts: Set<(Seq<char>, Seq<char>)>, folder: Seq<char>) -> bool {
    exists|file: Seq<char>| fonts.contains((folder, file))
}

/// Whether everything that a view waits for is there.
pub open spec fn ready(config: NoesisView, assets: Assets) -> bool {
    &&& assets.xaml@.contains_key(config.xaml_uri@)
    &&& forall|i: int|
        0 <= i < config.wait_for_fonts@.len() ==> has_folder(
            assets.fonts@,
            (#[trigger] config.wait_for_fonts@[i])@,
        )
    &&& forall|i: int|
        0 <= i < config.wait_for_font_files@.len() ==> assets.fonts@.contains(
            (#[trigger] config.wait_for_font_files@[i])@,
        )
    &&& forall|i: int|
        0 <= i < config.wait_for_images@.len() ==> assets.images@.contains(
            (#[trigger] config.wait_for_images@[i])@,
        )
    &&& forall|i: int|
        0 <= i < config.application_resources@.len() ==> assets.xaml@.contains_key(
            (#[trigger] config.application_resources@[i])@,
        )
}

/// Whether the scene was parsed from the view's URI.
pub open spec fn same_uri(config: NoesisView, scene: Option<SceneState>) -> bool {
    scene matches Some(s) && s.built_for_uri@ == config.xaml_uri@
}

/// Whether the scene's markup was replaced, where `same_bytes` tells whether
/// the scene's buffer is the one the URI has now.
pub open spec fn reloaded(
    config: NoesisView,
    scene: Option<SceneState>,
    assets: Assets,
    same_bytes: bool,
) -> bool {
    same_uri(config, scene) && assets.xaml@.contains_key(config.xaml_uri@) && !same_bytes
}

/// What to do with a view's scene.
///
/// - An empty URI takes the scene down.
/// - A view without an extent is left alone: there is nothing to paint into.
/// - The same markup in another size is a resize, the same markup in the same
///   size is up to date.
/// - Anything else is a rebuild once everything is there, and waits until then.
pub open spec fn scene_action(
    config: NoesisView,
    scene: Option<SceneState>,
    assets: Assets,
    same_bytes: bool,
) -> SceneAction {
    if config.xaml_uri@.len() == 0 {
        SceneAction::Teardown
    } else if config.size.x == 0 || config.size.y == 0 {
        SceneAction::Keep
    } else if same_uri(config, scene) && !reloaded(config, scene, assets, same_bytes) {
        if scene->0.size != config.size {
            SceneAction::Resize
        } else {
            SceneAction::Keep
        }
    } else if ready(config, assets) {
        SceneAction::Rebuild
    } else {
        SceneAction::Keep
    }
}

fn folder_loaded(fonts: &KeyedSet<(String, String)>, folder: &String) -> (r: bool)
    ensures
        r == has_folder(fonts@, folder@),
{
    let n: usize = fonts.len();
    let ghost all = fonts.listed();
    let mut i: usize = 0;
    while i < n
        invariant
            i <= n,
            n == all.len(),
            all == fonts.listed(),
            fonts@ == map_of(all).dom(),
            forall|j: int| 0 <= j < i ==> (#[trigger] all[j]).0.0@ != folder@,
        decreases n - i,
    {
        let font = fonts.at(i);
        if font.0 == *folder {
            assert(fonts@.contains((folder@, font.1@)));
            return true;
        }
        i = i + 1;
    }
    proof {
        if has_folder(fonts@, folder@) {
            let file = choose|file: Seq<char>| fonts@.contains((folder@, file));
            let k = (folder@, file);
            assert(has_key(all, k));
            let j = key_index(all, k);
            assert(all[j].0@ == k);
            assert(all[j].0.0@ == folder@);
        }
    }
    false
}

/// Whether everything that a view waits for is there.
pub fn is_ready(config: &NoesisView, assets: &Assets) -> (r: bool)
    ensures
        r == ready(*config, *assets),
{
    if !assets.xaml.contains_key(config.xaml_uri.as_str()) {
        return false;
    }
    let mut i: usize = 0;
    while i < config.wait_for_fonts.len()
        invariant
            i <= config.wait_for_fonts@.len(),
            forall|j: int|
                0 <= j < i ==> has_folder(
                    assets.fonts@,
                    (#[trigger] config.wait_for_fonts@[j])@,
                ),
        decreases config.wait_for_fonts@.len() - i,
    {
        if !folder_loaded(&assets.fonts, &config.wait_for_fonts[i]) {
            assert(!has_folder(assets.fonts@, config.wait_for_fonts@[i as int]@));
            return false;
        }
        i = i + 1;
    }
    let mut i: usize = 0;
    while i < config.wait_for_font_files.len()
        invariant
            i <= config.wait_for_font_files@.len(),
            forall|j: int|
                0 <= j < i ==> assets.fonts@.contains(
                    (#[trigger] config.wait_for_font_files@[j])@,
                ),
        decreases config.wait_for_font_files@.len() - i,
    {
        if !assets.fonts.contains(&config.wait_for_font_files[i]) {
            assert(!assets.fonts@.contains(config.wait_for_font_files@[i as int]@));
            return false;
        }
        i = i + 1;
    }
    let mut i: usize = 0;
    while i < config.wait_for_images.len()
        invariant
            i <= config.wait_for_images@.len(),
            forall|j: int|
                0 <= j < i ==> assets.images@.contains((#[trigger] config.wait_for_images@[j])@),
        decreases config.wait_for_images@.len() - i,
    {
        if !assets.images.contains(&config.wait_for_images[i]) {
            assert(!assets.images@.contains(config.wait_for_images@[i as int]@));
            return false;
        }
        i = i + 1;
    }
    let mut i: usize = 0;
    while i < config.application_resources.len()
        invariant
            i <= config.application_resources@.len(),
            forall|j: int|
                0 <= j < i ==> assets.xaml@.contains_key(
                    (#[trigger] config.application_resources@[j])@,
                ),
        decreases config.application_resources@.len() - i,
    {
        if !assets.xaml.contains_key(config.application_resources[i].as_str()) {
            assert(!assets.xaml@.contains_key(config.application_resources@[i as int]@));
            return false;
        }
        i = i + 1;
    }
    true
}

/// The scene as the specifications take it.
pub open spec fn scene_value(scene: Option<&SceneState>) -> Option<SceneState> {
    match scene {
        Some(s) => Some(*s),
        None => None,
    }
}

/// What to do with a view's scene, where `same_bytes` tells whether the
/// scene's buffer is the one its URI has now.
pub fn decide_scene(
    config: &NoesisView,
    scene: Option<&SceneState>,
    assets: &Assets,
    same_bytes: bool,
) -> (r: SceneAction)
    ensures
        r == scene_action(*config, scene_value(scene), *assets, same_bytes),
{
    if config.xaml_uri.as_str().is_empty() {
        return SceneAction::Teardown;
    }
    if config.size.x == 0 || config.size.y == 0 {
        return SceneAction::Keep;
    }
    match scene {
        Some(s) => {
            if str_eq(s.built_for_uri.as_str(), config.xaml_uri.as_str()) {
                let reloaded = assets.xaml.contains_key(config.xaml_uri.as_str()) && !same_bytes;
                if !reloaded {
                    return if s.size != config.size {
                        SceneAction::Resize
                    } else {
                        SceneAction::Keep
                    };
                }
            }
        },
        None => {},
    }
    if is_ready(config, assets) {
        SceneAction::Rebuild
    } else {
        SceneAction::Keep
    }
}

/// Whether `r` is a step that may be taken: the one for what was answered when
/// it was asked whether the scene's buffer is the one that its URI has now.
pub open spec fn steps(
    config: NoesisView,
    scene: Option<SceneState>,
    assets: Assets,
    r: SceneAction,
) -> bool {
    if scene is Some && assets.xaml@.contains_key(config.xaml_uri@) {
        exists|same: bool| #[trigger]
            told_same(scene->0.built_bytes, assets.xaml@[config.xaml_uri@], same) && r
                == scene_action(config, scene, assets, same)
    } else {
        r == scene_action(config, scene, assets, true)
    }
}

/// What to do with a view's scene. Whether its markup was replaced is told by
/// the identity of the buffer, which is no function of the contents: the answer
/// is the one for "same" or the one for "other", and "same" only where the
/// contents agree.
pub fn scene_step(config: &NoesisView, scene: Option<&SceneState>, assets: &Assets) -> (r:
    SceneAction)
    ensures
        ({
            let s = scene_value(scene);
            ||| r == scene_action(*config, s, *assets, false)
            ||| {
                &&& r == scene_action(*config, s, *assets, true)
                &&& s is Some && assets.xaml@.contains_key(config.xaml_uri@)
                    ==> s->0.built_bytes@ == assets.xaml@[config.xaml_uri@]@
            }
        }),
        steps(*config, scene_value(scene), *assets, r),
{
    let same_bytes = match (scene, assets.xaml.get(config.xaml_uri.as_str())) {
        (Some(s), Some(bytes)) => same_buffer(&s.built_bytes, bytes),
        _ => true,
    };
    proof {
        let s = scene_value(scene);
        if s is Some && assets.xaml@.contains_key(config.xaml_uri@) {
            lemma_told(&s->0.built_bytes, &assets.xaml@[config.xaml_uri@], same_bytes);
        }
    }
    decide_scene(config, scene, assets, same_bytes)
}

/// A live scene is taken down only where the view asks for none, or where its
/// replacement can be built at once: a reload that has to wait keeps it.
pub proof fn law_live_scene_is_not_blanked(
    config: NoesisView,
    scene: SceneState,
    assets: Assets,
    same_bytes: bool,
)
    requires
        config.xaml_uri@.len() > 0,
        !ready(config, assets),
    ensures
        scene_action(config, Some(scene), assets, same_bytes) != SceneAction::Teardown,
        scene_action(config, Some(scene), assets, same_bytes) != SceneAction::Rebuild,
{
}

/// A view without an extent neither builds nor resizes anything.
pub proof fn law_degenerate_view_is_left_alone(
    config: NoesisView,
    scene: Option<SceneState>,
    assets: Assets,
    same_bytes: bool,
)
    requires
        config.xaml_uri@.len() > 0,
        config.size.x == 0 || config.size.y == 0,
    ensures
        scene_action(config, scene, assets, same_bytes) == SceneAction::Keep,
{
}

/// Once built or resized as configured, a scene is up to date: the next pass
/// keeps it, until the configuration or the markup changes.
pub proof fn law_built_scene_is_up_to_date(config: NoesisView, scene: SceneState, assets: Assets)
    requires
        config.xaml_uri@.len() > 0,
        scene.built_for_uri@ == config.xaml_uri@,
        scene.size == config.size,
    ensures
        scene_action(config, Some(scene), assets, true) == SceneAction::Keep,
{
}

/// Replaced markup rebuilds the scene, whatever the size, once everything it
/// waits for is there.
pub proof fn law_reload_rebuilds(config: NoesisView, scene: SceneState, assets: Assets)
    requires
        config.xaml_uri@.len() > 0,
        config.size.x > 0,
        config.size.y > 0,
        ready(config, assets),
        scene.built_for_uri@ == config.xaml_uri@,
    ensures
        scene_action(config, Some(scene), assets, false) == SceneAction::Rebuild,
{
}

/// Settings to hand to a live view.
#[derive(Clone, Copy, PartialEq, Eq, Debug)]
pub struct LiveSettings {
    /// Render flags, where they changed.
    pub flags: Option<u32>,
    /// DPI scale, where it changed.
    pub scale: Option<Float32>,
}

/// What of the settings that need no rebuild has changed, and the scene once
/// they are set.
pub open spec fn live_settings(s: SceneState, config: NoesisView) -> (LiveSettings, SceneState) {
    let flags = view_flags(config.ppaa);
    let same_scale = config.scale.same(&s.applied_scale);
    (
        LiveSettings {
            flags: if flags != s.applied_flags {
                Some(flags)
            } else {
                None
            },
            scale: if same_scale {
                None
            } else {
                Some(config.scale)
            },
        },
        SceneState {
            applied_flags: flags,
            applied_scale: if same_scale {
                s.applied_scale
            } else {
                config.scale
            },
            ..s
        },
    )
}

impl SceneState {
    /// A scene just built for a view.
    pub fn built(config: &NoesisView, bytes: Arc<Vec<u8>>) -> (s: SceneState)
        ensures
            s.size == config.size,
            s.built_for_uri@ == config.xaml_uri@,
            s.built_bytes == bytes,
            !s.renderer_initialized,
            !s.write_second,
            s.applied_flags == view_flags(config.ppaa),
            s.applied_scale == config.scale,
    {
        SceneState {
            size: config.size,
            built_for_uri: config.xaml_uri.clone(),
            built_bytes: bytes,
            renderer_initialized: false,
            write_second: false,
            applied_flags: flags_from(config),
            applied_scale: config.scale,
        }
    }

    /// What of the settings that need no rebuild has changed since they were
    /// last set; it counts as set now.
    pub fn apply_live_flags(&mut self, config: &NoesisView) -> (r: LiveSettings)
        ensures
            (r, *final(self)) == live_settings(*old(self), *config),
    {
        let desired: u32 = flags_from(config);
        let mut r = LiveSettings { flags: None, scale: None };
        if desired != self.applied_flags {
            r.flags = Some(desired);
            self.applied_flags = desired;
        }
        if !config.scale.same_value(&self.applied_scale) {
            r.scale = Some(config.scale);
            self.applied_scale = config.scale;
        }
        r
    }

    /// Gives the scene another size.
    pub fn resize(&mut self, size: UVec2)
        ensures
            *final(self) == (SceneState { size, ..*old(self) }),
    {
        self.size = size;
    }
}

/// Where the scene's markup is the very buffer that its URI has now, a scene in
/// the configured size is kept and one in another size is resized; it is never
/// built again, whatever was painted or set since.
pub proof fn law_unchanged_markup_keeps_the_scene(
    config: NoesisView,
    scene: SceneState,
    assets: Assets,
    r: SceneAction,
)
    requires
        config.xaml_uri@.len() > 0,
        config.size.x > 0,
        config.size.y > 0,
        scene.built_for_uri@ == config.xaml_uri@,
        assets.xaml@.contains_key(config.xaml_uri@) ==> !told_same(
            scene.built_bytes,
            assets.xaml@[config.xaml_uri@],
            false,
        ),
        steps(config, Some(scene), assets, r),
    ensures
        scene.size.x == config.size.x && scene.size.y == config.size.y ==> r == SceneAction::Keep,
        scene.size.x != config.size.x || scene.size.y != config.size.y ==> r == SceneAction::Resize,
{
}

/// A step does not look at what was painted or set since the scene was built:
/// two scenes of one size and markup are treated alike.
pub proof fn law_painting_does_not_change_the_step(
    config: NoesisView,
    a: SceneState,
    b: SceneState,
    assets: Assets,
    r: SceneAction,
)
    requires
        a.size == b.size,
        a.built_for_uri@ == b.built_for_uri@,
        a.built_bytes == b.built_bytes,
    ensures
        steps(config, Some(a), assets, r) <==> steps(config, Some(b), assets, r),
{
    assert(scene_action(config, Some(a), assets, true) == scene_action(
        config,
        Some(b),
        assets,
        true,
    ));
    assert(scene_action(config, Some(a), assets, false) == scene_action(
        config,
        Some(b),
        assets,
        false,
    ));
    if steps(config, Some(a), assets, r) && assets.xaml@.contains_key(config.xaml_uri@) {
        let same = choose|same: bool| #[trigger]
            told_same(a.built_bytes, assets.xaml@[config.xaml_uri@], same) && r == scene_action(
                config,
                Some(a),
                assets,
                same,
            );
        assert(told_same(b.built_bytes, assets.xaml@[config.xaml_uri@], same));
    }
    if steps(config, Some(b), assets, r) && assets.xaml@.contains_key(config.xaml_uri@) {
        let same = choose|same: bool| #[trigger]
            told_same(b.built_bytes, assets.xaml@[config.xaml_uri@], same) && r == scene_action(
                config,
                Some(b),
                assets,
                same,
            );
        assert(told_same(a.built_bytes, assets.xaml@[config.xaml_uri@], same));
    }
}

/// Whether nothing that a view waits for is missing, said part by part.
pub open spec fn nothing_missing(config: NoesisView, assets: Assets) -> bool {
    &&& assets.xaml@.contains_key(config.xaml_uri@)
    &&& !exists|i: int|
        0 <= i < config.application_resources@.len() && !assets.xaml@.contains_key(
            (#[trigger] config.application_resources@[i])@,
        )
    &&& !exists|i: int|
        0 <= i < config.wait_for_images@.len() && !assets.images@.contains(
            (#[trigger] config.wait_for_images@[i])@,
        )
    &&& !exists|i: int|
        0 <= i < config.wait_for_font_files@.len() && !assets.fonts@.contains(
            ((#[trigger] config.wait_for_font_files@[i]).0@, config.wait_for_font_files@[i].1@),
        )
    &&& !exists|i: int|
        0 <= i < config.wait_for_fonts@.len() && is_bare_folder(
            assets.fonts@,
            (#[trigger] config.wait_for_fonts@[i])@,
        )
}

/// Whether every font lies in another folder.
pub open spec fn is_bare_folder(fonts: Set<(Seq<char>, Seq<char>)>, folder: Seq<char>) -> bool {
    forall|font: (Seq<char>, Seq<char>)| #[trigger] fonts.contains(font) ==> font.0 != folder
}

/// A view is ready exactly when nothing it waits for is missing: its XAML, the
/// dictionaries of its chain, every image, every font file, and some font in
/// every folder.
pub proof fn law_ready_when_nothing_is_missing(config: NoesisView, assets: Assets)
    ensures
        ready(config, assets) <==> nothing_missing(config, assets),
{
    let files = config.wait_for_font_files@;
    assert forall|i: int| 0 <= i < files.len() implies (#[trigger] files[i])@ == (
        files[i].0@,
        files[i].1@,
    ) by {}
    assert forall|folder: Seq<char>| has_folder(assets.fonts@, folder) != is_bare_folder(
        assets.fonts@,
        folder,
    ) by {
        if !is_bare_folder(assets.fonts@, folder) {
            let font = choose|font: (Seq<char>, Seq<char>)| #[trigger]
                assets.fonts@.contains(font) && font.0 == folder;
            assert(assets.fonts@.contains((folder, font.1)));
        }
    }
    if ready(config, assets) {
        assert forall|i: int| 0 <= i < config.wait_for_fonts@.len() implies !is_bare_folder(
            assets.fonts@,
            (#[trigger] config.wait_for_fonts@[i])@,
        ) by {
            assert(has_folder(assets.fonts@, config.wait_for_fonts@[i]@));
        }
        assert forall|i: int| 0 <= i < files.len() implies assets.fonts@.contains(
            ((#[trigger] files[i]).0@, files[i].1@),
        ) by {
            assert(assets.fonts@.contains(files[i]@));
        }
    }
    if nothing_missing(config, assets) {
        assert forall|i: int| 0 <= i < config.wait_for_fonts@.len() implies has_folder(
            assets.fonts@,
            (#[trigger] config.wait_for_fonts@[i])@,
        ) by {
            assert(!is_bare_folder(assets.fonts@, config.wait_for_fonts@[i]@));
        }
        assert forall|i: int| 0 <= i < files.len() implies assets.fonts@.contains(
            (#[trigger] files[i])@,
        ) by {
            assert(assets.fonts@.contains((files[i].0@, files[i].1@)));
        }
    }
}

/// A scene is built exactly when the view names a XAML, has an extent, waits for
/// nothing that is missing, and has no scene of that XAML as it is now. It is
/// taken down exactly when the view names no XAML, and resized exactly when it
/// has the scene in another size.
pub proof fn law_when_scenes_are_built(
    config: NoesisView,
    scene: Option<SceneState>,
    assets: Assets,
    same_bytes: bool,
)
    ensures
        ({
            let r = scene_action(config, scene, assets, same_bytes);
            let named = config.xaml_uri@ != Seq::<char>::empty();
            let extent = config.size.x * config.size.y != 0;
            let current = scene matches Some(s) && s.built_for_uri@ == config.xaml_uri@ && (same_bytes
                || !assets.xaml@.contains_key(config.xaml_uri@));
            &&& r == SceneAction::Teardown <==> !named
            &&& r == SceneAction::Rebuild <==> named && extent && !current && nothing_missing(
                config,
                assets,
            )
            &&& r == SceneAction::Resize <==> named && extent && current && !(scene->0.size.x
                == config.size.x && scene->0.size.y == config.size.y)
        }),
{
    law_ready_when_nothing_is_missing(config, assets);
    assert(config.size.x * config.size.y != 0 <==> config.size.x != 0 && config.size.y != 0)
        by (nonlinear_arith);
    assert(config.xaml_uri@ =~= Seq::<char>::empty() <==> config.xaml_uri@.len() == 0);
}

/// The settings of a live view follow its configuration: what is handed over is
/// what differs, nothing is left to hand over afterwards, and nothing else of
/// the scene changes.
pub proof fn law_live_settings_follow(s: SceneState, config: NoesisView)
    ensures
        ({
            let (l, now) = live_settings(s, config);
            &&& now.applied_flags == view_flags(config.ppaa)
            &&& l.flags is Some <==> s.applied_flags != now.applied_flags
            &&& l.flags matches Some(f) ==> f == now.applied_flags
            &&& l.scale is Some <==> !config.scale.same(&s.applied_scale)
            &&& l.scale matches Some(x) ==> x == config.scale && now.applied_scale == config.scale
            &&& l.scale is None ==> now.applied_scale == s.applied_scale
            &&& now.size == s.size && now.built_for_uri == s.built_for_uri && now.built_bytes
                == s.built_bytes
            &&& now.renderer_initialized == s.renderer_initialized && now.write_second
                == s.write_second
            &&& live_settings(now, config).0.flags is None
            &&& config.scale.same(&config.scale) ==> live_settings(now, config).0.scale is None
        }),
{
}

} // verus!
