//! Reading the screens of each backend out of what it reports.
use vstd::prelude::*;
use crate::builder::{unique_names, Screen};
use crate::error::WallpaperError;
use crate::mode::Mode;
use crate::native::{
    cinnamon_mode_of, cinnamon_parse, mode_from_xfce_image_style, unknown_native, xfce_mode_of,
    CinnamonMode,
};
use vstd::utf8::{decode_utf8, valid_utf8};
use crate::text::{
    chars_of, count_char, decimal, has_at, strip_cr, lemma_lines_upto_len, lines_of, lines_upto, starts_with,
    str_eq, substring, to_decimal, trim_around, trim_end_all, trim_start_all, utf8_text,
};

verus! {

// ---- xfce: the `/backdrop/` property listing ----

/// The two properties of a backdrop bucket that are read and written.
#[derive(Debug, Clone, Copy, PartialEq, Eq, Structural)]
pub enum BackdropKind {
    /// `last-image`: the path of the image.
    LastImage,
    /// `image-style`: the mode, as a small integer.
    ImageStyle,
}

/// One interesting key of the listing.
#[derive(Debug, Clone)]
pub struct BackdropKey {
    /// The key below `/backdrop/`, as it is queried.
    pub property: String,
    /// The bucket the key belongs to: the key without its last segment.
    pub screen: String,
    pub kind: BackdropKind,
    /// Whether the bucket is a rendered `screen/monitor/workspace` (three
    /// segments) rather than a `screen/monitor` default (two).
    pub active: bool,
}

pub open spec fn backdrop_prefix() -> Seq<char> {
    "/backdrop/"@
}

/// The position of the last `/` in `s`, or -1.
pub open spec fn last_slash(s: Seq<char>) -> int
    decreases s.len(),
{
    if s.len() == 0 {
        -1
    } else if s.last() == '/' {
        s.len() - 1
    } else {
        last_slash(s.drop_last())
    }
}

pub open spec fn backdrop_kind_of(s: Seq<char>) -> Option<BackdropKind> {
    if s == "last-image"@ {
        Some(BackdropKind::LastImage)
    } else if s == "image-style"@ {
        Some(BackdropKind::ImageStyle)
    } else {
        None
    }
}

/// The part of a listed line below `/backdrop/`.
pub open spec fn backdrop_rest(line: Seq<char>) -> Seq<char> {
    line.skip(backdrop_prefix().len() as int)
}

/// Whether `line` is a key of interest: below `/backdrop/`, with three or four
/// segments, the last of them `last-image` or `image-style`.
pub open spec fn is_backdrop_key(line: Seq<char>) -> bool {
    let rest = backdrop_rest(line);
    &&& starts_with(line, backdrop_prefix())
    &&& (count_char(rest, '/') == 2 || count_char(rest, '/') == 3)
    &&& backdrop_kind_of(rest.skip(last_slash(rest) + 1)) is Some
}

/// `key` is what the key line `line` says.
pub open spec fn backdrop_key_of(line: Seq<char>, key: BackdropKey) -> bool {
    let rest = backdrop_rest(line);
    &&& key.property@ == rest
    &&& key.screen@ == rest.subrange(0, last_slash(rest))
    &&& Some(key.kind) == backdrop_kind_of(rest.skip(last_slash(rest) + 1))
    &&& key.active == (count_char(rest, '/') == 3)
}

proof fn lemma_scan_step(t: Seq<char>, k: int)
    requires
        0 <= k < t.len(),
    ensures
        count_char(t.subrange(0, k + 1), '/') == count_char(t.subrange(0, k), '/') + if t[k]
            == '/' { 1nat } else { 0nat },
        last_slash(t.subrange(0, k + 1)) == if t[k] == '/' { k } else { last_slash(
            t.subrange(0, k),
        ) },
{
    assert(t.subrange(0, k + 1).drop_last() =~= t.subrange(0, k));
}

proof fn lemma_last_slash_bounds(t: Seq<char>)
    ensures
        -1 <= last_slash(t) < t.len(),
        count_char(t, '/') == 0 <==> last_slash(t) == -1,
    decreases t.len(),
{
    if t.len() > 0 {
        lemma_last_slash_bounds(t.drop_last());
    }
}

/// Reads one line of the listing: the key it names, if it is one of interest.
pub fn parse_backdrop_key(line: &str) -> (r: Option<BackdropKey>)
    ensures
        r is Some <==> is_backdrop_key(line@),
        r is Some ==> backdrop_key_of(line@, r->0),
{
    proof {
        reveal_strlit("/backdrop/");
    }
    let cs = chars_of(line);
    let prefix = chars_of("/backdrop/");
    if !has_at(&cs, 0, &prefix) {
        assert(cs@.skip(0) =~= cs@);
        return None;
    }
    assert(cs@.skip(0) =~= cs@);
    let start = prefix.len();
    let ghost rest = backdrop_rest(line@);
    let mut n: usize = 0;
    let mut last: usize = start;
    let mut i: usize = start;
    while i < cs.len()
        invariant
            cs@ == line@,
            start == 10,
            start <= i <= cs.len(),
            rest == cs@.skip(start as int),
            n == count_char(rest.subrange(0, i - start), '/'),
            n <= i - start,
            n > 0 ==> last - start == last_slash(rest.subrange(0, i - start)) && start <= last < i,
        decreases cs.len() - i,
    {
        proof {
            lemma_scan_step(rest, i - start);
            lemma_last_slash_bounds(rest.subrange(0, i - start));
        }
        if cs[i] == '/' {
            n = n + 1;
            last = i;
        }
        i = i + 1;
    }
    assert(rest.subrange(0, cs.len() - start) =~= rest);
    proof {
        lemma_last_slash_bounds(rest);
    }
    if n != 2 && n != 3 {
        return None;
    }
    let kind_name = substring(line, last + 1, cs.len());
    assert(kind_name@ =~= rest.skip(last_slash(rest) + 1));
    let kind = if str_eq(kind_name.as_str(), "last-image") {
        BackdropKind::LastImage
    } else if str_eq(kind_name.as_str(), "image-style") {
        BackdropKind::ImageStyle
    } else {
        return None;
    };
    let property = substring(line, start, cs.len());
    let screen = substring(line, start, last);
    assert(property@ =~= rest);
    assert(screen@ =~= rest.subrange(0, last_slash(rest)));
    Some(BackdropKey { property, screen, kind, active: n == 3 })
}

/// The lines that are keys of interest, in order.
pub open spec fn key_lines(lines: Seq<Seq<char>>) -> Seq<Seq<char>>
    decreases lines.len(),
{
    if lines.len() == 0 {
        lines
    } else if is_backdrop_key(lines.last()) {
        key_lines(lines.drop_last()).push(lines.last())
    } else {
        key_lines(lines.drop_last())
    }
}

/// Reads the output of the property listing: the keys of interest, one for
/// each line that names one, in order.
pub fn xfce_keys(listing: &str) -> (r: Vec<BackdropKey>)
    ensures
        r@.len() == key_lines(lines_of(listing@)).len(),
        forall|j: int| 0 <= j < r@.len() ==> backdrop_key_of(
            #[trigger] key_lines(lines_of(listing@))[j],
            r@[j],
        ),
{
    let cs = chars_of(listing);
    let ghost s = listing@;
    let mut out: Vec<BackdropKey> = Vec::new();
    let mut ls: usize = 0;
    let mut i: usize = 0;
    while i < cs.len()
        invariant
            cs@ == s,
            s == listing@,
            ls <= i <= cs.len(),
            lines_upto(s, i as int).last() == s.subrange(ls as int, i as int),
            out@.len() == key_lines(lines_upto(s, i as int).drop_last()).len(),
            forall|j: int| 0 <= j < out@.len() ==> backdrop_key_of(
                #[trigger] key_lines(lines_upto(s, i as int).drop_last())[j],
                out@[j],
            ),
        decreases cs.len() - i,
    {
        let ghost before = lines_upto(s, i as int);
        proof {
            lemma_lines_upto_len(s, i as int);
        }
        if cs[i] == '\n' {
            let end = if i > ls && cs[i - 1] == '\r' { i - 1 } else { i };
            let line = substring(listing, ls, end);
            let ghost finished = before.update(before.len() - 1, strip_cr(before.last()));
            assert(line@ =~= strip_cr(before.last()));
            assert(lines_upto(s, i + 1).drop_last() =~= finished);
            assert(finished.drop_last() =~= before.drop_last());
            assert(finished.drop_last().push(finished.last()) =~= finished);
            if let Some(key) = parse_backdrop_key(line.as_str()) {
                out.push(key);
            }
            ls = i + 1;
            assert(lines_upto(s, i + 1).last() =~= s.subrange(ls as int, i + 1));
        } else {
            assert(lines_upto(s, i + 1).drop_last() =~= before.drop_last());
            assert(lines_upto(s, i + 1).last() =~= s.subrange(ls as int, i + 1));
        }
        i = i + 1;
    }
    let ghost all = lines_upto(s, s.len() as int);
    proof {
        lemma_lines_upto_len(s, s.len() as int);
    }
    if ls < cs.len() {
        let line = substring(listing, ls, cs.len());
        assert(all.drop_last().push(all.last()) =~= all);
        if let Some(key) = parse_backdrop_key(line.as_str()) {
            out.push(key);
        }
    }
    out
}

/// The value of the last key of `kind` in bucket `name` among the first `n`.
pub open spec fn last_value(
    keys: Seq<BackdropKey>,
    values: Seq<String>,
    name: Seq<char>,
    kind: BackdropKind,
    n: int,
) -> Option<Seq<char>>
    decreases n,
{
    if n <= 0 {
        None
    } else if keys[n - 1].screen@ == name && keys[n - 1].kind == kind {
        Some(values[n - 1]@)
    } else {
        last_value(keys, values, name, kind, n - 1)
    }
}

/// Whether key `k` is no `image-style`, or one whose value has a meaning.
pub open spec fn style_known(keys: Seq<BackdropKey>, values: Seq<String>, k: int) -> bool {
    keys[k].kind == BackdropKind::ImageStyle ==> xfce_mode_of(values[k]@) is Some
}

/// `sc` is the screen of bucket `name` after the first `n` keys: it takes the
/// `active` flag of the bucket's first key, and the last image and style
/// given for it.
#[verifier::opaque]
pub open spec fn bucket_screen(keys: Seq<BackdropKey>, values: Seq<String>, n: int, sc: Screen) -> bool {
    &&& exists|k: int|
        0 <= k < n && (#[trigger] keys[k]).screen@ == sc.name@ && sc.active == keys[k].active
            && forall|j: int| 0 <= j < k ==> (#[trigger] keys[j]).screen@ != sc.name@
    &&& match last_value(keys, values, sc.name@, BackdropKind::LastImage, n) {
        Some(v) => sc.wallpaper is Some && sc.wallpaper->0@ == v,
        None => sc.wallpaper is None,
    }
    &&& match last_value(keys, values, sc.name@, BackdropKind::ImageStyle, n) {
        Some(v) => Some(sc.mode) == xfce_mode_of(v),
        None => sc.mode is None,
    }
}

/// Every one of the first `n` keys has a screen for its bucket.
pub open spec fn covers(keys: Seq<BackdropKey>, n: int, screens: Seq<Screen>) -> bool {
    forall|k: int| 0 <= k < n ==> exists|i: int|
        0 <= i < screens.len() && (#[trigger] screens[i]).name@ == (#[trigger] keys[k]).screen@
}

/// The screens grouped from the first `n` keys: one per bucket, none twice.
#[verifier::opaque]
pub open spec fn grouped(keys: Seq<BackdropKey>, values: Seq<String>, n: int, screens: Seq<Screen>) -> bool {
    &&& unique_names(screens)
    &&& covers(keys, n, screens)
    &&& forall|i: int| 0 <= i < screens.len() ==> bucket_screen(keys, values, n, #[trigger] screens[i])
}

/// Finds the screen called `name`.
fn find_screen(screens: &Vec<Screen>, name: &String) -> (r: Option<usize>)
    ensures
        r matches Some(i) ==> i < screens@.len() && screens@[i as int].name@ == name@,
        r is None ==> forall|i: int| 0 <= i < screens@.len() ==> (#[trigger] screens@[i]).name@ != name@,
{
    let mut i: usize = 0;
    while i < screens.len()
        invariant
            i <= screens@.len(),
            forall|j: int| 0 <= j < i ==> (#[trigger] screens@[j]).name@ != name@,
        decreases screens@.len() - i,
    {
        if screens[i].name == *name {
            return Some(i);
        }
        i = i + 1;
    }
    None
}

/// Groups the keys of the listing, with `values[k]` the value of `keys[k]`,
/// into one screen per bucket. Fails on the first `image-style` value that
/// has no meaning.
pub fn xfce_screens(keys: &Vec<BackdropKey>, values: &Vec<String>) -> (r: Result<Vec<Screen>, WallpaperError>)
    requires
        keys@.len() == values@.len(),
    ensures
        r is Ok <==> forall|k: int| 0 <= k < keys@.len() ==> style_known(keys@, values@, k),
        r matches Ok(screens) ==> grouped(keys@, values@, keys@.len() as int, screens@),
        r is Err ==> exists|k: int|
            0 <= k < keys@.len() && !style_known(keys@, values@, k) && unknown_native(
                r->Err_0,
                values@[k]@,
            ) && forall|j: int| 0 <= j < k ==> style_known(keys@, values@, j),
{
    let mut screens: Vec<Screen> = Vec::new();
    let mut k: usize = 0;
    proof {
        reveal(grouped);
    }
    while k < keys.len()
        invariant
            keys@.len() == values@.len(),
            k <= keys@.len(),
            forall|j: int| 0 <= j < k ==> style_known(keys@, values@, j),
            grouped(keys@, values@, k as int, screens@),
        decreases keys@.len() - k,
    {
        let key = &keys[k];
        let ghost old_screens = screens@;
        let i = match find_screen(&screens, &key.screen) {
            Some(i) => i,
            None => {
                screens.push(
                    Screen { name: key.screen.clone(), wallpaper: None, mode: None, active: key.active },
                );
                screens.len() - 1
            },
        };
        let ghost fresh = old_screens.len() < screens@.len();
        let ghost base = screens@[i as int];
        match key.kind {
            BackdropKind::LastImage => {
                let mut sc = screens[i].copy();
                sc.wallpaper = Some(values[k].clone());
                screens.set(i, sc);
            },
            BackdropKind::ImageStyle => {
                let m = match mode_from_xfce_image_style(values[k].as_str()) {
                    Ok(m) => m,
                    Err(e) => {
                        assert(!style_known(keys@, values@, k as int));
                        return Err(e);
                    },
                };
                let mut sc = screens[i].copy();
                sc.mode = m;
                screens.set(i, sc);
            },
        }
        proof {
            lemma_grouped_step(keys@, values@, k as int, old_screens, screens@, i as int, fresh, base);
        }
        k = k + 1;
    }
    Ok(screens)
}

/// No key of bucket `name` among the first `n` means no value for it.
proof fn lemma_last_value_absent(
    keys: Seq<BackdropKey>,
    values: Seq<String>,
    name: Seq<char>,
    kind: BackdropKind,
    n: int,
)
    requires
        forall|j: int| 0 <= j < n ==> (#[trigger] keys[j]).screen@ != name,
    ensures
        last_value(keys, values, name, kind, n) is None,
    decreases n,
{
    if n > 0 {
        lemma_last_value_absent(keys, values, name, kind, n - 1);
    }
}

/// Adding key `k` to the screens grouped from the keys before it keeps them
/// grouped: `new` is `old` with the key's value put into screen `i`, which is
/// the key's bucket, appended first when `fresh`.
proof fn lemma_grouped_step(
    keys: Seq<BackdropKey>,
    values: Seq<String>,
    k: int,
    old: Seq<Screen>,
    new: Seq<Screen>,
    i: int,
    fresh: bool,
    base: Screen,
)
    requires
        0 <= k < keys.len(),
        keys.len() == values.len(),
        style_known(keys, values, k),
        fresh ==> i == old.len() && new.len() == old.len() + 1 && forall|x: int|
            0 <= x < old.len() ==> (#[trigger] old[x]).name@ != keys[k].screen@,
        fresh ==> base == (Screen { name: keys[k].screen, wallpaper: None, mode: None, active: keys[k].active }),
        !fresh ==> 0 <= i < old.len() && new.len() == old.len() && base == old[i]
            && base.name@ == keys[k].screen@,
        forall|x: int| 0 <= x < old.len() && x != i ==> new[x] == old[x],
        new[i].name == base.name,
        new[i].active == base.active,
        keys[k].kind == BackdropKind::LastImage ==> new[i].wallpaper == Some(values[k])
            && new[i].mode == base.mode,
        keys[k].kind == BackdropKind::ImageStyle ==> Some(new[i].mode) == xfce_mode_of(values[k]@)
            && new[i].wallpaper == base.wallpaper,
        grouped(keys, values, k, old),
    ensures
        grouped(keys, values, k + 1, new),
{
    reveal(grouped);
    lemma_step_unique(keys, values, k, old, new, i, fresh, base);
    lemma_step_covers(keys, values, k, old, new, i, fresh, base);
    assert forall|x: int| 0 <= x < new.len() implies bucket_screen(keys, values, k + 1, #[trigger] new[x]) by {
        lemma_step_bucket(keys, values, k, old, new, i, fresh, base, x);
    }
}

proof fn lemma_step_unique(
    keys: Seq<BackdropKey>,
    values: Seq<String>,
    k: int,
    old: Seq<Screen>,
    new: Seq<Screen>,
    i: int,
    fresh: bool,
    base: Screen,
)
    requires
        0 <= k < keys.len(),
        keys.len() == values.len(),
        style_known(keys, values, k),
        fresh ==> i == old.len() && new.len() == old.len() + 1 && forall|x: int|
            0 <= x < old.len() ==> (#[trigger] old[x]).name@ != keys[k].screen@,
        fresh ==> base == (Screen { name: keys[k].screen, wallpaper: None, mode: None, active: keys[k].active }),
        !fresh ==> 0 <= i < old.len() && new.len() == old.len() && base == old[i]
            && base.name@ == keys[k].screen@,
        forall|x: int| 0 <= x < old.len() && x != i ==> new[x] == old[x],
        new[i].name == base.name,
        new[i].active == base.active,
        keys[k].kind == BackdropKind::LastImage ==> new[i].wallpaper == Some(values[k])
            && new[i].mode == base.mode,
        keys[k].kind == BackdropKind::ImageStyle ==> Some(new[i].mode) == xfce_mode_of(values[k]@)
            && new[i].wallpaper == base.wallpaper,
        unique_names(old),
    ensures
        unique_names(new),
{
    assert forall|a: int, b: int| 0 <= a < b < new.len() implies (#[trigger] new[a]).name@ != (
    #[trigger] new[b]).name@ by {
        if a != i && b != i {
            assert(new[a] == old[a] && new[b] == old[b]);
        } else if a == i {
            assert(new[b] == old[b]);
            if !fresh {
                assert(old[a].name@ != old[b].name@);
            }
        } else {
            assert(new[a] == old[a]);
            if !fresh {
                assert(old[a].name@ != old[b].name@);
            }
        }
    }
}

proof fn lemma_step_covers(
    keys: Seq<BackdropKey>,
    values: Seq<String>,
    k: int,
    old: Seq<Screen>,
    new: Seq<Screen>,
    i: int,
    fresh: bool,
    base: Screen,
)
    requires
        0 <= k < keys.len(),
        keys.len() == values.len(),
        style_known(keys, values, k),
        fresh ==> i == old.len() && new.len() == old.len() + 1 && forall|x: int|
            0 <= x < old.len() ==> (#[trigger] old[x]).name@ != keys[k].screen@,
        fresh ==> base == (Screen { name: keys[k].screen, wallpaper: None, mode: None, active: keys[k].active }),
        !fresh ==> 0 <= i < old.len() && new.len() == old.len() && base == old[i]
            && base.name@ == keys[k].screen@,
        forall|x: int| 0 <= x < old.len() && x != i ==> new[x] == old[x],
        new[i].name == base.name,
        new[i].active == base.active,
        keys[k].kind == BackdropKind::LastImage ==> new[i].wallpaper == Some(values[k])
            && new[i].mode == base.mode,
        keys[k].kind == BackdropKind::ImageStyle ==> Some(new[i].mode) == xfce_mode_of(values[k]@)
            && new[i].wallpaper == base.wallpaper,
        covers(keys, k, old),
    ensures
        covers(keys, k + 1, new),
{
    assert forall|j: int| 0 <= j < k + 1 implies exists|x: int|
        0 <= x < new.len() && (#[trigger] new[x]).name@ == (#[trigger] keys[j]).screen@ by {
        if j < k {
            let x = choose|x: int| 0 <= x < old.len() && (#[trigger] old[x]).name@ == keys[j].screen@;
            if x == i {
                assert(new[i].name@ == keys[j].screen@);
            } else {
                assert(new[x] == old[x]);
            }
        } else {
            assert(new[i].name@ == keys[j].screen@);
        }
    }
}

proof fn lemma_step_bucket(
    keys: Seq<BackdropKey>,
    values: Seq<String>,
    k: int,
    old: Seq<Screen>,
    new: Seq<Screen>,
    i: int,
    fresh: bool,
    base: Screen,
    x: int,
)
    requires
        0 <= k < keys.len(),
        keys.len() == values.len(),
        style_known(keys, values, k),
        fresh ==> i == old.len() && new.len() == old.len() + 1 && forall|x: int|
            0 <= x < old.len() ==> (#[trigger] old[x]).name@ != keys[k].screen@,
        fresh ==> base == (Screen { name: keys[k].screen, wallpaper: None, mode: None, active: keys[k].active }),
        !fresh ==> 0 <= i < old.len() && new.len() == old.len() && base == old[i]
            && base.name@ == keys[k].screen@,
        forall|x: int| 0 <= x < old.len() && x != i ==> new[x] == old[x],
        new[i].name == base.name,
        new[i].active == base.active,
        keys[k].kind == BackdropKind::LastImage ==> new[i].wallpaper == Some(values[k])
            && new[i].mode == base.mode,
        keys[k].kind == BackdropKind::ImageStyle ==> Some(new[i].mode) == xfce_mode_of(values[k]@)
            && new[i].wallpaper == base.wallpaper,
        grouped(keys, values, k, old),
        0 <= x < new.len(),
    ensures
        bucket_screen(keys, values, k + 1, new[x]),
{
    reveal(grouped);
    reveal(bucket_screen);
    let n = k + 1;
    let sc = new[x];
    if x == i && fresh {
        assert forall|j: int| 0 <= j < k implies (#[trigger] keys[j]).screen@ != sc.name@ by {
            let y = choose|y: int| 0 <= y < old.len() && (#[trigger] old[y]).name@ == keys[j].screen@;
        }
        assert(keys[k].screen@ == sc.name@ && sc.active == keys[k].active);
        lemma_last_value_absent(keys, values, sc.name@, BackdropKind::LastImage, k);
        lemma_last_value_absent(keys, values, sc.name@, BackdropKind::ImageStyle, k);
    } else {
        let old_sc = old[x];
        assert(bucket_screen(keys, values, k, old_sc));
        assert(old_sc.name == sc.name && old_sc.active == sc.active);
        if x != i {
            assert(sc == old_sc);
            assert(keys[k].screen@ != sc.name@);
        }
    }
}

/// The value of a queried property: the command's output without the line
/// break that ends it.
pub open spec fn property_value(text: Seq<char>) -> Seq<char> {
    if text.len() > 0 && text.last() == '\n' {
        text.drop_last()
    } else {
        text
    }
}

/// Reads the output of a property query; output that is not UTF-8 is a
/// decoding error.
pub fn xfce_property_value(output: Vec<u8>) -> (r: Result<String, WallpaperError>)
    ensures
        r is Ok <==> valid_utf8(output@),
        r matches Ok(v) ==> v@ == property_value(decode_utf8(output@)),
        r matches Err(e) ==> e is DecodeError,
{
    let ghost bytes = output@;
    match utf8_text(output) {
        Some(text) => {
            let cs = chars_of(text.as_str());
            if cs.len() > 0 && cs[cs.len() - 1] == '\n' {
                Ok(substring(text.as_str(), 0, cs.len() - 1))
            } else {
                proof {
                    assert(text@.subrange(0, text@.len() as int) =~= text@);
                }
                Ok(substring(text.as_str(), 0, cs.len()))
            }
        },
        None => Err(WallpaperError::DecodeError("property value is not UTF-8".to_string())),
    }
}

// ---- cinnamon: the desktop-wide default ----

/// The name of the stand-in screen for cinnamon's stored default.
pub open spec fn default_screen_name() -> Seq<char> {
    "default"@
}

/// The path in a `picture-uri` value such as `'file:///a.jpg'`.
pub open spec fn cinnamon_uri_path(text: Seq<char>) -> Seq<char> {
    trim_end_all(trim_start_all(text, "'file://"@), "'\n"@)
}

/// The name in a `picture-options` value such as `'zoom'`.
pub open spec fn cinnamon_options_name(text: Seq<char>) -> Seq<char> {
    trim_end_all(trim_start_all(text, "'"@), "'\n"@)
}

/// The inactive stand-in screen for cinnamon's stored default, read from the
/// outputs of the `picture-uri` and `picture-options` queries. Output that is
/// not UTF-8 is a decoding error and an option name that cinnamon does not
/// define is an unknown mode; `spanned`, which no mode matches, leaves the
/// mode unknown.
pub fn cinnamon_default_screen(uri_output: Vec<u8>, options_output: Vec<u8>) -> (r: Result<
    Screen,
    WallpaperError,
>)
    ensures
        r is Ok <==> valid_utf8(uri_output@) && valid_utf8(options_output@) && cinnamon_parse(
            cinnamon_options_name(decode_utf8(options_output@)),
        ) is Some,
        !valid_utf8(uri_output@) || !valid_utf8(options_output@) ==> (r matches Err(e)
            && e is DecodeError),
        valid_utf8(uri_output@) && valid_utf8(options_output@) && cinnamon_parse(
            cinnamon_options_name(decode_utf8(options_output@)),
        ) is None ==> r is Err && unknown_native(
            r->Err_0,
            cinnamon_options_name(decode_utf8(options_output@)),
        ),
        r matches Ok(sc) ==> {
            &&& sc.name@ == default_screen_name()
            &&& !sc.active
            &&& sc.wallpaper is Some
            &&& sc.wallpaper->0@ == cinnamon_uri_path(decode_utf8(uri_output@))
            &&& sc.mode == cinnamon_mode_of(
                cinnamon_parse(cinnamon_options_name(decode_utf8(options_output@)))->0,
            )
        },
{
    let uri = match utf8_text(uri_output) {
        Some(text) => text,
        None => return Err(WallpaperError::DecodeError("picture-uri is not UTF-8".to_string())),
    };
    let options = match utf8_text(options_output) {
        Some(text) => text,
        None => return Err(WallpaperError::DecodeError("picture-options is not UTF-8".to_string())),
    };
    let wallpaper = trim_around(uri.as_str(), "'file://", "'\n");
    let name = trim_around(options.as_str(), "'", "'\n");
    let mode = match CinnamonMode::from_name(name.as_str()) {
        Ok(c) => c.to_mode(),
        Err(e) => return Err(e),
    };
    Ok(Screen { name: "default".to_string(), wallpaper: Some(wallpaper), mode, active: false })
}

// ---- plasma shell, sway, X11 and the delegate ----

/// A desktop as the plasma shell describes it.
pub struct KdeDesktop {
    /// The screen the desktop is on; negative when it is on none.
    pub screen: i32,
    pub id: u32,
}

/// The desktops that are on a screen, in order.
pub open spec fn kde_shown(desktops: Seq<KdeDesktop>) -> Seq<KdeDesktop>
    decreases desktops.len(),
{
    if desktops.len() == 0 {
        desktops
    } else if desktops.last().screen >= 0 {
        kde_shown(desktops.drop_last()).push(desktops.last())
    } else {
        kde_shown(desktops.drop_last())
    }
}

/// One active screen, named by its desktop id, for each desktop that is on a
/// screen.
pub fn kde_screens(desktops: &Vec<KdeDesktop>) -> (r: Vec<Screen>)
    ensures
        r@.len() == kde_shown(desktops@).len(),
        forall|j: int|
            0 <= j < r@.len() ==> (#[trigger] r@[j]).name@ == decimal(kde_shown(desktops@)[j].id as nat)
                && r@[j].active && r@[j].wallpaper is None && r@[j].mode is None,
{
    let mut r: Vec<Screen> = Vec::new();
    let mut k: usize = 0;
    while k < desktops.len()
        invariant
            k <= desktops@.len(),
            r@.len() == kde_shown(desktops@.subrange(0, k as int)).len(),
            forall|j: int|
                0 <= j < r@.len() ==> (#[trigger] r@[j]).name@ == decimal(
                    kde_shown(desktops@.subrange(0, k as int))[j].id as nat,
                ) && r@[j].active && r@[j].wallpaper is None && r@[j].mode is None,
        decreases desktops@.len() - k,
    {
        assert(desktops@.subrange(0, k + 1).drop_last() =~= desktops@.subrange(0, k as int));
        if desktops[k].screen >= 0 {
            r.push(
                Screen {
                    name: to_decimal(desktops[k].id as u64),
                    wallpaper: None,
                    mode: None,
                    active: true,
                },
            );
        }
        k = k + 1;
    }
    assert(desktops@.subrange(0, desktops@.len() as int) =~= desktops@);
    r
}

/// An output as sway describes it.
pub struct SwayOutput {
    pub name: String,
    pub active: bool,
}

/// One screen for each output, in order, active as the output is.
pub fn sway_screens(outputs: &Vec<SwayOutput>) -> (r: Vec<Screen>)
    ensures
        r@.len() == outputs@.len(),
        forall|j: int|
            0 <= j < r@.len() ==> (#[trigger] r@[j]).name == outputs@[j].name && r@[j].active
                == outputs@[j].active && r@[j].wallpaper is None && r@[j].mode is None,
{
    let mut r: Vec<Screen> = Vec::new();
    let mut k: usize = 0;
    while k < outputs.len()
        invariant
            k <= outputs@.len(),
            r@.len() == k,
            forall|j: int|
                0 <= j < k ==> (#[trigger] r@[j]).name == outputs@[j].name && r@[j].active
                    == outputs@[j].active && r@[j].wallpaper is None && r@[j].mode is None,
        decreases outputs@.len() - k,
    {
        r.push(
            Screen {
                name: outputs[k].name.clone(),
                wallpaper: None,
                mode: None,
                active: outputs[k].active,
            },
        );
        k = k + 1;
    }
    r
}

/// A monitor as the X11 RandR query describes it.
pub struct X11Monitor {
    pub name: String,
    /// Whether the monitor is placed automatically, that is, driven.
    pub is_automatic: bool,
}

/// The monitors that are placed automatically, in order.
pub open spec fn x11_driven(monitors: Seq<X11Monitor>) -> Seq<X11Monitor>
    decreases monitors.len(),
{
    if monitors.len() == 0 {
        monitors
    } else if monitors.last().is_automatic {
        x11_driven(monitors.drop_last()).push(monitors.last())
    } else {
        x11_driven(monitors.drop_last())
    }
}

/// One active screen for each monitor that is placed automatically.
pub fn x11_screens(monitors: &Vec<X11Monitor>) -> (r: Vec<Screen>)
    ensures
        r@.len() == x11_driven(monitors@).len(),
        forall|j: int|
            0 <= j < r@.len() ==> (#[trigger] r@[j]).name == x11_driven(monitors@)[j].name
                && r@[j].active && r@[j].wallpaper is None && r@[j].mode is None,
{
    let mut r: Vec<Screen> = Vec::new();
    let mut k: usize = 0;
    while k < monitors.len()
        invariant
            k <= monitors@.len(),
            r@.len() == x11_driven(monitors@.subrange(0, k as int)).len(),
            forall|j: int|
                0 <= j < r@.len() ==> (#[trigger] r@[j]).name == x11_driven(
                    monitors@.subrange(0, k as int),
                )[j].name && r@[j].active && r@[j].wallpaper is None && r@[j].mode is None,
        decreases monitors@.len() - k,
    {
        assert(monitors@.subrange(0, k + 1).drop_last() =~= monitors@.subrange(0, k as int));
        if monitors[k].is_automatic {
            r.push(
                Screen {
                    name: monitors[k].name.clone(),
                    wallpaper: None,
                    mode: None,
                    active: true,
                },
            );
        }
        k = k + 1;
    }
    assert(monitors@.subrange(0, monitors@.len() as int) =~= monitors@);
    r
}

/// The name of the one screen of the single-wallpaper delegate.
pub open spec fn delegate_screen_name() -> Seq<char> {
    "unknown"@
}

/// The single-wallpaper delegate knows of one active screen and nothing of it.
pub fn delegate_screens() -> (r: Vec<Screen>)
    ensures
        r@.len() == 1,
        r@[0].name@ == delegate_screen_name(),
        r@[0].active,
        r@[0].wallpaper is None,
        r@[0].mode is None,
{
    vec![Screen { name: "unknown".to_string(), wallpaper: None, mode: None, active: true }]
}

} // verus!
