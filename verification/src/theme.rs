//! The control theme: which files belong to it, and what a view is told so that
//! it loads.

use vstd::prelude::*;

use crate::keyed::Key;
use crate::render::view::NoesisView;
use crate::strings::{chars_of, holds_string, texts};

verus! {

/// Font family that the theme's text falls back to.
pub const THEME_FONT_FALLBACK: &'static str = "Fonts/#PT Root UI";

/// Folder of the theme's fonts.
pub const THEME_FONT_FOLDER: &'static str = "Fonts";

/// A theme whose files were found.
pub struct StagedTheme {
    /// Name of the variant.
    pub name: String,
    /// File names of its dictionaries.
    pub xamls: Vec<String>,
    /// `(folder, filename)` of its fonts.
    pub fonts: Vec<(String, String)>,
}

/// Index of the last dot of a file name, or -1.
pub open spec fn last_dot(name: Seq<char>) -> int
    decreases name.len(),
{
    if name.len() == 0 {
        -1
    } else if name.last() == '.' {
        name.len() - 1
    } else {
        last_dot(name.drop_last())
    }
}

/// Extension of a file name: what follows its last dot, unless that dot is its
/// first character. The name of the parent directory has none.
pub open spec fn extension(name: Seq<char>) -> Option<Seq<char>> {
    if last_dot(name) <= 0 || name == seq!['.', '.'] {
        None
    } else {
        Some(name.skip(last_dot(name) + 1))
    }
}

/// Whether a file name has the extension `ext`.
pub fn has_extension(name: &str, ext: &str) -> (r: bool)
    ensures
        r == (extension(name@) == Some(ext@)),
{
    let chars = chars_of(name);
    if chars.len() == 2 && chars[0] == '.' && chars[1] == '.' {
        assert(chars@ =~= seq!['.', '.']);
        return false;
    }
    let mut i: usize = chars.len();
    assert(chars@.take(i as int) == chars@);
    while i > 0 && chars[i - 1] != '.'
        invariant
            i <= chars@.len(),
            last_dot(chars@) == last_dot(chars@.take(i as int)),
        decreases i,
    {
        assert(chars@.take(i as int).drop_last() == chars@.take(i - 1));
        assert(chars@.take(i as int).last() == chars@[i - 1]);
        i = i - 1;
    }
    if i > 0 {
        assert(chars@.take(i as int).last() == chars@[i - 1]);
    }
    if i <= 1 {
        return false;
    }
    assert(extension(name@) == Some(chars@.skip(i as int)));
    let tail = chars_of(ext);
    let total: usize = chars.len();
    if total - i != tail.len() {
        assert(chars@.skip(i as int).len() != tail@.len());
        return false;
    }
    let n: usize = tail.len();
    let mut j: usize = 0;
    while j < n
        invariant
            j <= n,
            n == tail@.len(),
            i + n == total,
            total == chars@.len(),
            tail@ == ext@,
            extension(name@) == Some(chars@.skip(i as int)),
            forall|k: int| 0 <= k < j ==> chars@.skip(i as int)[k] == tail@[k],
        decreases n - j,
    {
        if chars[i + j] != tail[j] {
            assert(chars@.skip(i as int)[j as int] != tail@[j as int]);
            return false;
        }
        j = j + 1;
    }
    assert(chars@.skip(i as int) =~= tail@);
    true
}

/// Whether a file of the theme's directory is one of its dictionaries.
pub fn is_theme_xaml(name: &str) -> (r: bool)
    ensures
        r == (extension(name@) == Some("xaml"@)),
{
    has_extension(name, "xaml")
}

/// Whether a file of the theme's font directory is a font.
pub fn is_theme_font(name: &str) -> (r: bool)
    ensures
        r == (extension(name@) == Some("otf"@) || extension(name@) == Some("ttf"@)),
{
    has_extension(name, "otf") || has_extension(name, "ttf")
}

/// The dictionaries among the files of a directory, in order.
pub open spec fn dictionaries(files: Seq<String>) -> Seq<Seq<char>>
    decreases files.len(),
{
    if files.len() == 0 {
        Seq::empty()
    } else {
        let rest = dictionaries(files.drop_last());
        if extension(files.last()@) == Some("xaml"@) {
            rest.push(files.last()@)
        } else {
            rest
        }
    }
}

/// The fonts among the files of a directory, in order.
pub open spec fn font_files(files: Seq<String>) -> Seq<Seq<char>>
    decreases files.len(),
{
    if files.len() == 0 {
        Seq::empty()
    } else {
        let rest = font_files(files.drop_last());
        if extension(files.last()@) == Some("otf"@) || extension(files.last()@) == Some("ttf"@) {
            rest.push(files.last()@)
        } else {
            rest
        }
    }
}

/// Pairs by their texts.
pub open spec fn pairs_of(list: Seq<(String, String)>) -> Seq<(Seq<char>, Seq<char>)> {
    list.map_values(|p: (String, String)| p@)
}

/// Pairs of a folder with each name.
pub open spec fn in_folder(folder: Seq<char>, names: Seq<Seq<char>>) -> Seq<
    (Seq<char>, Seq<char>),
> {
    names.map_values(|n: Seq<char>| (folder, n))
}

/// The theme `name` made of the files of its directory and of its font
/// directory.
pub fn stage_theme(name: &str, files: &Vec<String>, fonts: &Vec<String>) -> (t: StagedTheme)
    ensures
        t.name@ == name@,
        texts(t.xamls@) == dictionaries(files@),
        pairs_of(t.fonts@) == in_folder(THEME_FONT_FOLDER@, font_files(fonts@)),
{
    let mut xamls: Vec<String> = Vec::new();
    let n: usize = files.len();
    let mut i: usize = 0;
    assert(files@.take(0) =~= Seq::<String>::empty());
    assert(texts(xamls@) =~= Seq::<Seq<char>>::empty());
    while i < n
        invariant
            i <= n,
            n == files@.len(),
            texts(xamls@) == dictionaries(files@.take(i as int)),
        decreases n - i,
    {
        let ghost before = xamls@;
        proof {
            assert(files@.take(i + 1).drop_last() == files@.take(i as int));
            assert(files@.take(i + 1).last() == files@[i as int]);
        }
        if is_theme_xaml(files[i].as_str()) {
            xamls.push(files[i].clone());
            assert(texts(xamls@) =~= texts(before).push(files@[i as int]@));
        }
        i = i + 1;
    }
    assert(files@.take(n as int) == files@);
    let mut pairs: Vec<(String, String)> = Vec::new();
    let m: usize = fonts.len();
    let mut k: usize = 0;
    assert(fonts@.take(0) =~= Seq::<String>::empty());
    assert(pairs_of(pairs@) =~= in_folder(THEME_FONT_FOLDER@, Seq::<Seq<char>>::empty()));
    while k < m
        invariant
            k <= m,
            m == fonts@.len(),
            pairs_of(pairs@) == in_folder(THEME_FONT_FOLDER@, font_files(fonts@.take(k as int))),
        decreases m - k,
    {
        let ghost before = pairs@;
        let ghost part = font_files(fonts@.take(k as int));
        proof {
            assert(fonts@.take(k + 1).drop_last() == fonts@.take(k as int));
            assert(fonts@.take(k + 1).last() == fonts@[k as int]);
        }
        if is_theme_font(fonts[k].as_str()) {
            pairs.push((THEME_FONT_FOLDER.to_owned(), fonts[k].clone()));
            proof {
                let font = (THEME_FONT_FOLDER@, fonts@[k as int]@);
                assert(pairs_of(pairs@) =~= pairs_of(before).push(font));
                assert(in_folder(THEME_FONT_FOLDER@, part.push(fonts@[k as int]@)) =~= in_folder(
                    THEME_FONT_FOLDER@,
                    part,
                ).push(font));
            }
        }
        k = k + 1;
    }
    assert(fonts@.take(m as int) == fonts@);
    StagedTheme { name: name.to_owned(), xamls, fonts: pairs }
}

fn push_all(s: &mut String, more: &str)
    ensures
        final(s)@ == old(s)@ + more@,
{
    let chars = chars_of(more);
    let n: usize = chars.len();
    let mut i: usize = 0;
    assert(old(s)@ + chars@.take(0) =~= old(s)@);
    while i < n
        invariant
            i <= n,
            n == chars@.len(),
            s@ == old(s)@ + chars@.take(i as int),
        decreases n - i,
    {
        s.push(chars[i]);
        i = i + 1;
        assert(s@ =~= old(s)@ + chars@.take(i as int));
    }
    assert(chars@.take(n as int) == chars@);
}

/// URI of the dictionary of a theme.
pub open spec fn theme_uri_of(name: Seq<char>) -> Seq<char> {
    "NoesisTheme."@ + name + ".xaml"@
}

/// URI of the dictionary of a theme.
pub fn theme_uri(name: &str) -> (r: String)
    ensures
        r@ == theme_uri_of(name@),
{
    let mut r = String::new();
    push_all(&mut r, "NoesisTheme.");
    assert(r@ =~= "NoesisTheme."@);
    push_all(&mut r, name);
    push_all(&mut r, ".xaml");
    r
}

/// A list with `x` at its end, unless it holds it.
pub open spec fn with_last<T>(list: Seq<T>, x: T) -> Seq<T> {
    if list.contains(x) {
        list
    } else {
        list.push(x)
    }
}

/// A list with `x` at its front, unless it holds it.
pub open spec fn with_first<T>(list: Seq<T>, x: T) -> Seq<T> {
    if list.contains(x) {
        list
    } else {
        seq![x] + list
    }
}

/// A list with each of `more` at its end, unless it holds it.
pub open spec fn with_each<T>(list: Seq<T>, more: Seq<T>) -> Seq<T>
    decreases more.len(),
{
    if more.len() == 0 {
        list
    } else {
        with_last(with_each(list, more.drop_last()), more.last())
    }
}

fn add_last(list: &mut Vec<String>, s: &str)
    ensures
        texts(final(list)@) == with_last(texts(old(list)@), s@),
{
    if !holds_string(list, s) {
        list.push(s.to_owned());
        assert(texts(list@) =~= texts(old(list)@).push(s@));
    }
}

fn add_pair(list: &mut Vec<(String, String)>, p: &(String, String))
    ensures
        pairs_of(final(list)@) == with_last(pairs_of(old(list)@), p@),
{
    let n: usize = list.len();
    let mut i: usize = 0;
    while i < n
        invariant
            i <= n,
            n == list@.len(),
            list@ == old(list)@,
            forall|j: int| 0 <= j < i ==> (#[trigger] pairs_of(list@)[j]) != p@,
        decreases n - i,
    {
        if list[i].same_key(p) {
            assert(pairs_of(list@)[i as int] == p@);
            return;
        }
        i = i + 1;
    }
    assert(!pairs_of(list@).contains(p@));
    list.push(p.copy_key());
    assert(pairs_of(list@) =~= pairs_of(old(list)@).push(p@));
}

/// What the theme tells a view, as a value.
#[verifier::ext_equal]
pub struct ThemedView {
    pub application_resources: Seq<Seq<char>>,
    pub wait_for_fonts: Seq<Seq<char>>,
    pub wait_for_font_files: Seq<(Seq<char>, Seq<char>)>,
    pub font_fallbacks: Seq<Seq<char>>,
}

/// What a view says of the theme.
pub open spec fn themed_part(v: NoesisView) -> ThemedView {
    ThemedView {
        application_resources: texts(v.application_resources@),
        wait_for_fonts: texts(v.wait_for_fonts@),
        wait_for_font_files: pairs_of(v.wait_for_font_files@),
        font_fallbacks: texts(v.font_fallbacks@),
    }
}

/// A view with the theme: its dictionary comes first, so that the application's
/// own can build on it, and the view waits for the theme's fonts.
pub open spec fn themed(
    v: ThemedView,
    name: Seq<char>,
    fonts: Seq<(Seq<char>, Seq<char>)>,
) -> ThemedView {
    ThemedView {
        application_resources: with_first(v.application_resources, theme_uri_of(name)),
        wait_for_fonts: with_last(v.wait_for_fonts, THEME_FONT_FOLDER@),
        wait_for_font_files: with_each(v.wait_for_font_files, fonts),
        font_fallbacks: with_last(v.font_fallbacks, THEME_FONT_FALLBACK@),
    }
}

/// Whether two views agree in all that the theme does not touch.
pub open spec fn same_besides_theme(a: NoesisView, b: NoesisView) -> bool {
    &&& a.xaml_uri == b.xaml_uri
    &&& a.size == b.size
    &&& a.scale == b.scale
    &&& a.wait_for_images == b.wait_for_images
    &&& a.ppaa == b.ppaa
}

fn put_theme(view: &mut NoesisView, theme: &StagedTheme)
    ensures
        themed_part(*final(view)) == themed(
            themed_part(*old(view)),
            theme.name@,
            pairs_of(theme.fonts@),
        ),
        same_besides_theme(*old(view), *final(view)),
{
    let uri = theme_uri(theme.name.as_str());
    if !holds_string(&view.application_resources, uri.as_str()) {
        let ghost was = view.application_resources@;
        view.application_resources.insert(0, uri);
        assert(texts(view.application_resources@) =~= seq![uri@] + texts(was));
    }
    add_last(&mut view.wait_for_fonts, THEME_FONT_FOLDER);
    let n: usize = theme.fonts.len();
    let mut i: usize = 0;
    let ghost fonts = pairs_of(theme.fonts@);
    let ghost now = *view;
    assert(fonts.take(0) =~= Seq::<(Seq<char>, Seq<char>)>::empty());
    while i < n
        invariant
            i <= n,
            n == theme.fonts@.len(),
            fonts == pairs_of(theme.fonts@),
            pairs_of(view.wait_for_font_files@) == with_each(
                pairs_of(now.wait_for_font_files@),
                fonts.take(i as int),
            ),
            *view == (NoesisView { wait_for_font_files: view.wait_for_font_files, ..now }),
        decreases n - i,
    {
        proof {
            assert(fonts.take(i + 1).drop_last() == fonts.take(i as int));
            assert(fonts.take(i + 1).last() == theme.fonts@[i as int]@);
        }
        add_pair(&mut view.wait_for_font_files, &theme.fonts[i]);
        i = i + 1;
    }
    assert(fonts.take(n as int) == fonts);
    add_last(&mut view.font_fallbacks, THEME_FONT_FALLBACK);
}

/// Puts the theme on the view, once: `applied` tells whether that is done with.
/// Without files there is nothing to put; without a view it is tried again.
pub fn apply_theme_to_scene(
    theme: &StagedTheme,
    view: Option<&mut NoesisView>,
    applied: &mut bool,
)
    ensures
        *final(applied) == (*old(applied) || theme.xamls@.len() == 0 || view is Some),
        view matches Some(v) ==> {
            if *old(applied) || theme.xamls@.len() == 0 {
                *final(v) == *v
            } else {
                &&& themed_part(*final(v)) == themed(
                    themed_part(*v),
                    theme.name@,
                    pairs_of(theme.fonts@),
                )
                &&& same_besides_theme(*v, *final(v))
            }
        },
{
    if *applied {
        return;
    }
    if theme.xamls.len() == 0 {
        *applied = true;
        return;
    }
    match view {
        Some(v) => {
            put_theme(v, theme);
            *applied = true;
        },
        None => {},
    }
}

proof fn lemma_with_each<T>(list: Seq<T>, more: Seq<T>)
    ensures
        forall|x: T| #[trigger]
            with_each(list, more).contains(x) <==> list.contains(x) || more.contains(x),
    decreases more.len(),
{
    if more.len() > 0 {
        let front = more.drop_last();
        lemma_with_each(list, front);
        let before = with_each(list, front);
        let all = with_each(list, more);
        assert forall|x: T| #[trigger] all.contains(x) <==> list.contains(x) || more.contains(x) by {
            if front.contains(x) {
                assert(more[front.index_of(x)] == x);
            }
            if more.contains(x) {
                let i = more.index_of(x);
                if i < front.len() {
                    assert(front[i] == x);
                }
            }
            if before.contains(x) {
                assert(all[before.index_of(x)] == x);
            }
            if all.contains(x) && !before.contains(x) {
                let i = all.index_of(x);
                if i < before.len() {
                    assert(before[i] == x);
                }
            }
            if x == more.last() {
                assert(more[more.len() - 1] == x);
                if !before.contains(x) {
                    assert(all[before.len() as int] == x);
                }
            }
        }
    }
}

proof fn lemma_with_each_idle<T>(list: Seq<T>, more: Seq<T>)
    requires
        forall|i: int| 0 <= i < more.len() ==> list.contains(#[trigger] more[i]),
    ensures
        with_each(list, more) == list,
    decreases more.len(),
{
    if more.len() > 0 {
        let front = more.drop_last();
        assert forall|i: int| 0 <= i < front.len() implies list.contains(#[trigger] front[i]) by {
            assert(front[i] == more[i]);
        }
        lemma_with_each_idle(list, front);
        assert(list.contains(more[more.len() - 1]));
    }
}

/// To put the theme on a view twice is to put it on once.
pub proof fn law_theme_is_idempotent(
    v: ThemedView,
    name: Seq<char>,
    fonts: Seq<(Seq<char>, Seq<char>)>,
)
    ensures
        themed(themed(v, name, fonts), name, fonts) == themed(v, name, fonts),
{
    let once = themed(v, name, fonts);
    let uri = theme_uri_of(name);
    if !v.application_resources.contains(uri) {
        assert(once.application_resources[0] == uri);
    }
    if !v.wait_for_fonts.contains(THEME_FONT_FOLDER@) {
        assert(once.wait_for_fonts[v.wait_for_fonts.len() as int] == THEME_FONT_FOLDER@);
    }
    if !v.font_fallbacks.contains(THEME_FONT_FALLBACK@) {
        assert(once.font_fallbacks[v.font_fallbacks.len() as int] == THEME_FONT_FALLBACK@);
    }
    lemma_with_each(v.wait_for_font_files, fonts);
    assert forall|i: int| 0 <= i < fonts.len() implies once.wait_for_font_files.contains(
        #[trigger] fonts[i],
    ) by {}
    lemma_with_each_idle(once.wait_for_font_files, fonts);
}

/// A view that did not name the theme has its dictionary first, and its own
/// dictionaries behind it in their order.
pub proof fn law_theme_comes_first(
    v: ThemedView,
    name: Seq<char>,
    fonts: Seq<(Seq<char>, Seq<char>)>,
)
    requires
        !v.application_resources.contains(theme_uri_of(name)),
    ensures
        themed(v, name, fonts).application_resources[0] == theme_uri_of(name),
        themed(v, name, fonts).application_resources.skip(1) == v.application_resources,
{
    assert(themed(v, name, fonts).application_resources.skip(1) =~= v.application_resources);
}

proof fn lemma_last_dot(stem: Seq<char>, ext: Seq<char>)
    requires
        !ext.contains('.'),
    ensures
        last_dot(stem.push('.') + ext) == stem.len(),
    decreases ext.len(),
{
    let name = stem.push('.') + ext;
    if ext.len() > 0 {
        let short = ext.drop_last();
        assert(ext[ext.len() - 1] != '.');
        assert forall|c: char| short.contains(c) implies ext.contains(c) by {
            let i = choose|i: int| 0 <= i < short.len() && short[i] == c;
            assert(ext[i] == c);
        }
        lemma_last_dot(stem, short);
        assert(name.drop_last() =~= stem.push('.') + short);
        assert(name.last() == ext.last());
    } else {
        assert(name =~= stem.push('.'));
    }
}

proof fn lemma_no_dot(name: Seq<char>)
    requires
        !name.contains('.'),
    ensures
        last_dot(name) == -1,
    decreases name.len(),
{
    if name.len() > 0 {
        assert(name[name.len() - 1] != '.');
        let short = name.drop_last();
        assert forall|c: char| short.contains(c) implies name.contains(c) by {
            let i = choose|i: int| 0 <= i < short.len() && short[i] == c;
            assert(name[i] == c);
        }
        lemma_no_dot(short);
    }
}

/// A file name that is a stem, a dot and a text without dots has that text as
/// its extension, whatever dots the stem holds. A name without a dot, or with
/// one in front only, has none.
pub proof fn law_extension_follows_the_last_dot(stem: Seq<char>, ext: Seq<char>)
    requires
        !ext.contains('.'),
        stem.push('.') + ext != seq!['.', '.'],
    ensures
        stem.len() > 0 ==> extension(stem.push('.') + ext) == Some(ext),
        stem.len() == 0 ==> extension(stem.push('.') + ext) is None,
        extension(ext) is None,
{
    lemma_last_dot(stem, ext);
    lemma_no_dot(ext);
    let name = stem.push('.') + ext;
    assert(name.skip(stem.len() as int + 1) =~= ext);
}

/// Directories are read file by file: each file counts by its own extension and
/// what counts keeps its order.
pub proof fn law_files_count_by_extension(files: Seq<String>, last: String)
    ensures
        dictionaries(Seq::<String>::empty()).len() == 0,
        font_files(Seq::<String>::empty()).len() == 0,
        extension(last@) == Some("xaml"@) ==> dictionaries(files.push(last)) == dictionaries(
            files,
        ).push(last@) && font_files(files.push(last)) == font_files(files),
        extension(last@) == Some("otf"@) || extension(last@) == Some("ttf"@) ==> font_files(
            files.push(last),
        ) == font_files(files).push(last@) && dictionaries(files.push(last)) == dictionaries(files),
        extension(last@) is None ==> dictionaries(files.push(last)) == dictionaries(files)
            && font_files(files.push(last)) == font_files(files),
        extension(last@) matches Some(e) && e != "xaml"@ && e != "otf"@ && e != "ttf"@
            ==> dictionaries(files.push(last)) == dictionaries(files) && font_files(
            files.push(last),
        ) == font_files(files),
{
    reveal_strlit("xaml");
    reveal_strlit("otf");
    reveal_strlit("ttf");
    assert(files.push(last).drop_last() =~= files);
    assert("xaml"@.len() != "otf"@.len() && "xaml"@.len() != "ttf"@.len());
}

/// Every font stands in the folder it is asked for in, under its own name.
pub proof fn law_fonts_stand_in_their_folder(folder: Seq<char>, names: Seq<Seq<char>>, i: int)
    requires
        0 <= i < names.len(),
    ensures
        in_folder(folder, names).len() == names.len(),
        in_folder(folder, names)[i].0 == folder,
        in_folder(folder, names)[i].1 == names[i],
{
}

/// Themes of different names have different dictionaries.
pub proof fn law_theme_uris_differ(a: Seq<char>, b: Seq<char>)
    requires
        theme_uri_of(a) == theme_uri_of(b),
    ensures
        a == b,
{
    reveal_strlit("NoesisTheme.");
    reveal_strlit(".xaml");
    let ua = theme_uri_of(a);
    let ub = theme_uri_of(b);
    let n = "NoesisTheme."@.len();
    let m = ".xaml"@.len();
    assert(ua.len() == n + a.len() + m);
    assert(ub.len() == n + b.len() + m);
    assert(ua.subrange(n as int, n as int + a.len()) =~= a);
    assert(ub.subrange(n as int, n as int + b.len()) =~= b);
}

/// A view with the theme asks for all that the theme brings, and for all that it
/// asked for itself, in the order it did.
pub proof fn law_theme_adds_and_drops_nothing(
    v: ThemedView,
    name: Seq<char>,
    fonts: Seq<(Seq<char>, Seq<char>)>,
)
    ensures
        ({
            let t = themed(v, name, fonts);
            &&& t.application_resources.contains(theme_uri_of(name))
            &&& t.wait_for_fonts.contains(THEME_FONT_FOLDER@)
            &&& t.font_fallbacks.contains(THEME_FONT_FALLBACK@)
            &&& forall|i: int|
                0 <= i < fonts.len() ==> t.wait_for_font_files.contains(#[trigger] fonts[i])
            &&& v.application_resources.len() <= t.application_resources.len()
                <= v.application_resources.len() + 1
            &&& t.application_resources.skip(
                t.application_resources.len() - v.application_resources.len(),
            ) == v.application_resources
            &&& v.wait_for_fonts.len() <= t.wait_for_fonts.len() <= v.wait_for_fonts.len() + 1
            &&& t.wait_for_fonts.take(v.wait_for_fonts.len() as int) == v.wait_for_fonts
            &&& v.font_fallbacks.len() <= t.font_fallbacks.len() <= v.font_fallbacks.len() + 1
            &&& t.font_fallbacks.take(v.font_fallbacks.len() as int) == v.font_fallbacks
            &&& v.wait_for_font_files.len() <= t.wait_for_font_files.len()
            &&& t.wait_for_font_files.take(v.wait_for_font_files.len() as int)
                == v.wait_for_font_files
        }),
{
    let t = themed(v, name, fonts);
    let uri = theme_uri_of(name);
    if !v.application_resources.contains(uri) {
        assert(t.application_resources[0] == uri);
        assert(t.application_resources.skip(1) =~= v.application_resources);
    } else {
        assert(t.application_resources.skip(0) =~= v.application_resources);
    }
    if !v.wait_for_fonts.contains(THEME_FONT_FOLDER@) {
        assert(t.wait_for_fonts[v.wait_for_fonts.len() as int] == THEME_FONT_FOLDER@);
    }
    assert(t.wait_for_fonts.take(v.wait_for_fonts.len() as int) =~= v.wait_for_fonts);
    if !v.font_fallbacks.contains(THEME_FONT_FALLBACK@) {
        assert(t.font_fallbacks[v.font_fallbacks.len() as int] == THEME_FONT_FALLBACK@);
    }
    assert(t.font_fallbacks.take(v.font_fallbacks.len() as int) =~= v.font_fallbacks);
    lemma_with_each(v.wait_for_font_files, fonts);
    lemma_each_keeps_front(v.wait_for_font_files, fonts);
}

proof fn lemma_each_keeps_front<T>(list: Seq<T>, more: Seq<T>)
    ensures
        list.len() <= with_each(list, more).len(),
        with_each(list, more).take(list.len() as int) == list,
    decreases more.len(),
{
    if more.len() > 0 {
        lemma_each_keeps_front(list, more.drop_last());
        let before = with_each(list, more.drop_last());
        assert(with_each(list, more).take(list.len() as int) =~= before.take(list.len() as int));
    } else {
        assert(list.take(list.len() as int) =~= list);
    }
}

/// The theme leaves everything else of a view as it is.
pub proof fn law_theme_leaves_the_rest(a: NoesisView, b: NoesisView)
    requires
        same_besides_theme(a, b),
    ensures
        a.xaml_uri@ == b.xaml_uri@,
        a.size == b.size,
        a.scale == b.scale,
        a.wait_for_images@ == b.wait_for_images@,
        a.ppaa == b.ppaa,
{
}

} // verus!
