//! The snapshot of screens and the engine that maps images onto them.
use vstd::prelude::*;
use crate::environment::{delegates, Environment};
use crate::error::WallpaperError;
use crate::plan::{all_assigned, plan_for_screens, plan_matches, ApplyPlan};
use crate::mode::Mode;
use vstd::arithmetic::div_mod::lemma_small_mod;
use crate::sampling::{
    ceil_div, choose_multiple, lemma_repeat_bound, lemma_round_counts, lemma_rounds_bound,
    lemma_sub_multiset_items, lemma_sub_multiset_no_duplicates, shuffle,
};

verus! {

/// One display target: a monitor, or a stand-in for the desktop-wide default.
#[derive(Clone, Debug, PartialEq, Eq)]
pub struct Screen {
    /// The backend's identifier for the screen, unique within a snapshot.
    pub name: String,
    /// The absolute path of the current or chosen image, if known.
    pub wallpaper: Option<String>,
    /// The current or chosen mode, if known.
    pub mode: Option<Mode>,
    /// Whether the screen is connected and rendering. An inactive screen
    /// stands for the default used on new or restarted screens.
    pub active: bool,
}

/// A copy of an optional string.
pub fn copy_opt_string(o: &Option<String>) -> (r: Option<String>)
    ensures
        r == *o,
{
    match o {
        Some(s) => Some(s.clone()),
        None => None,
    }
}

impl Screen {
    /// A field-by-field copy of this screen.
    pub fn copy(&self) -> (r: Screen)
        ensures
            r == *self,
    {
        Screen {
            name: self.name.clone(),
            wallpaper: copy_opt_string(&self.wallpaper),
            mode: self.mode,
            active: self.active,
        }
    }
}

/// No two screens share a name.
pub open spec fn unique_names(screens: Seq<Screen>) -> bool {
    forall|a: int, b: int|
        0 <= a < b < screens.len() ==> (#[trigger] screens[a]).name@ != (#[trigger] screens[b]).name@
}

/// The number of active screens among the first `k`.
pub open spec fn active_before(screens: Seq<Screen>, k: int) -> nat
    decreases k,
{
    if k <= 0 {
        0
    } else {
        active_before(screens, k - 1) + if screens[k - 1].active { 1nat } else { 0nat }
    }
}

/// The number of active screens.
pub open spec fn active_count(screens: Seq<Screen>) -> nat {
    active_before(screens, screens.len() as int)
}

/// The image that the sequential assignment gives screen `k`: the `i`-th
/// active screen takes `images[i % images.len()]`; inactive screens, and all
/// screens when there are no images, take `default`.
pub open spec fn vec_choice(screens: Seq<Screen>, images: Seq<String>, default: String, k: int) -> String {
    if !screens[k].active || images.len() == 0 {
        default
    } else {
        images[(active_before(screens, k) as int) % (images.len() as int)]
    }
}

/// The images the sequential assignment puts on the active screens, in order.
pub open spec fn vec_used(screens: Seq<Screen>, images: Seq<String>, default: String) -> Seq<String> {
    Seq::new(
        active_count(screens),
        |i: int|
            if images.len() == 0 {
                default
            } else {
                images[i % images.len() as int]
            },
    )
}

/// An image chosen for one screen, with its mode.
pub struct Choice {
    pub path: String,
    pub mode: Mode,
}

/// The images chosen for all screens, in screen order, and those of them that
/// went to active screens.
pub struct Selection {
    pub choices: Vec<Choice>,
    pub used: Vec<String>,
}

/// `sel` gives every inactive screen `default`, the `i`-th active screen
/// `sel.used[i]`, and every screen `mode`.
pub open spec fn selection_shape(screens: Seq<Screen>, default: String, mode: Mode, sel: Selection) -> bool {
    &&& sel.choices@.len() == screens.len()
    &&& sel.used@.len() == active_count(screens)
    &&& forall|k: int| 0 <= k < screens.len() ==> (#[trigger] sel.choices@[k]).mode == mode
    &&& forall|k: int|
        0 <= k < screens.len() && !screens[k].active ==> (#[trigger] sel.choices@[k]).path
            == default
    &&& forall|k: int|
        0 <= k < screens.len() && screens[k].active ==> (#[trigger] sel.choices@[k]).path
            == sel.used@[active_before(screens, k) as int]
}

proof fn lemma_active_before_step(screens: Seq<Screen>, k: int)
    requires
        0 <= k,
    ensures
        active_before(screens, k + 1) == active_before(screens, k) + if screens[k].active { 1nat } else { 0nat },
{
}

/// Fewer active screens come before an earlier position.
pub proof fn lemma_active_before_monotone(screens: Seq<Screen>, j: int, k: int)
    requires
        0 <= j <= k,
    ensures
        active_before(screens, j) <= active_before(screens, k),
    decreases k - j,
{
    if j < k {
        lemma_active_before_monotone(screens, j, k - 1);
    }
}

/// An active screen comes before all later active screens in the count.
pub proof fn lemma_active_rank_distinct(screens: Seq<Screen>, j: int, k: int)
    requires
        0 <= j < k <= screens.len(),
        screens[j].active,
    ensures
        active_before(screens, j) < active_before(screens, k),
        active_before(screens, j) < active_count(screens),
{
    lemma_active_before_monotone(screens, j + 1, k);
    lemma_active_before_monotone(screens, k, screens.len() as int);
}

proof fn active_count_le_len(screens: Seq<Screen>, k: int)
    requires
        0 <= k,
    ensures
        active_before(screens, k) <= k,
    decreases k,
{
    if k > 0 {
        active_count_le_len(screens, k - 1);
    }
}

/// With no images, the sequential assignment gives every screen, active or
/// not, the default image.
pub proof fn lemma_no_images_all_default(screens: Seq<Screen>, default: String)
    ensures
        forall|k: int|
            0 <= k < screens.len() ==> #[trigger] vec_choice(screens, Seq::empty(), default, k) == default,
        forall|i: int|
            0 <= i < active_count(screens) ==> #[trigger] vec_used(screens, Seq::empty(), default)[i]
                == default,
{
}

/// With at least one image, the sequential assignment gives the `i`-th active
/// screen `images[i % images.len()]` and every inactive screen the default,
/// and the images used are exactly those of the active screens, in order.
pub proof fn lemma_sequential_assignment(screens: Seq<Screen>, images: Seq<String>, default: String)
    requires
        images.len() > 0,
    ensures
        forall|k: int|
            0 <= k < screens.len() && screens[k].active ==> #[trigger] vec_choice(
                screens,
                images,
                default,
                k,
            ) == images[(active_before(screens, k) as int) % (images.len() as int)],
        forall|k: int|
            0 <= k < screens.len() && !screens[k].active ==> #[trigger] vec_choice(
                screens,
                images,
                default,
                k,
            ) == default,
        vec_used(screens, images, default).len() == active_count(screens),
        forall|k: int|
            0 <= k < screens.len() && screens[k].active ==> #[trigger] vec_choice(
                screens,
                images,
                default,
                k,
            ) == vec_used(screens, images, default)[active_before(screens, k) as int],
{
    assert forall|k: int| 0 <= k < screens.len() && screens[k].active implies #[trigger] vec_choice(
        screens,
        images,
        default,
        k,
    ) == vec_used(screens, images, default)[active_before(screens, k) as int] by {
        lemma_active_rank_distinct(screens, k, screens.len() as int);
    }
}

/// A chosen image after its path was resolved against the file system.
pub struct ResolvedChoice {
    /// The path as it was chosen.
    pub path: String,
    /// The canonical path of the existing file, or why there is none.
    pub resolved: Result<String, String>,
    pub mode: Mode,
}

/// There is a choice for every screen, or the choices stop early at one whose
/// path did not resolve.
pub open spec fn choices_cover(screens: Seq<Screen>, choices: Seq<ResolvedChoice>) -> bool {
    ||| choices.len() == screens.len()
    ||| 0 < choices.len() < screens.len() && choices.last().resolved is Err
}

/// Whether every chosen path resolved to an existing file.
pub open spec fn resolved_all(choices: Seq<ResolvedChoice>) -> bool {
    forall|k: int| 0 <= k < choices.len() ==> (#[trigger] choices[k]).resolved is Ok
}

/// The screens with the resolved image and the mode of their choice.
pub open spec fn with_choices(screens: Seq<Screen>, choices: Seq<ResolvedChoice>) -> Seq<Screen> {
    Seq::new(
        screens.len(),
        |k: int|
            Screen {
                name: screens[k].name,
                wallpaper: Some(choices[k].resolved->Ok_0),
                mode: Some(choices[k].mode),
                active: screens[k].active,
            },
    )
}

/// `e` reports that the path of `c` did not resolve, and why.
pub open spec fn path_invalid(e: WallpaperError, c: ResolvedChoice) -> bool {
    e == WallpaperError::PathInvalid { path: c.path, cause: c.resolved->Err_0 }
}

/// The snapshot of a desktop's screens, from which wallpapers are assigned and
/// applied once.
pub struct WallpaperBuilder {
    screens: Vec<Screen>,
    environment: Environment,
}

impl WallpaperBuilder {
    #[verifier::type_invariant]
    spec fn well_formed(&self) -> bool {
        &&& unique_names(self.screens@)
        &&& delegates(self.environment) ==> self.screens.len() == 1 && self.screens@[0].active
    }

    /// The screens of the snapshot.
    pub closed spec fn spec_screens(&self) -> Seq<Screen> {
        self.screens@
    }

    /// The environment of the snapshot.
    pub closed spec fn spec_environment(&self) -> Environment {
        self.environment
    }

    /// A snapshot of `screens` in `environment`. No two screens share a name,
    /// and an environment that goes through the single-wallpaper delegate has
    /// exactly one screen, which is active.
    pub fn new(environment: Environment, screens: Vec<Screen>) -> (r: WallpaperBuilder)
        requires
            unique_names(screens@),
            delegates(environment) ==> screens.len() == 1 && screens@[0].active,
        ensures
            r.spec_environment() == environment,
            r.spec_screens() == screens@,
    {
        WallpaperBuilder { screens, environment }
    }

    /// The number of screens, active or not.
    pub fn screen_count(&self) -> (r: usize)
        ensures
            r == self.spec_screens().len(),
    {
        self.screens.len()
    }

    /// The number of active screens.
    pub fn active_screen_count(&self) -> (r: usize)
        ensures
            r == active_count(self.spec_screens()),
    {
        let mut n: usize = 0;
        let mut k: usize = 0;
        while k < self.screens.len()
            invariant
                k <= self.screens.len(),
                n == active_before(self.screens@, k as int),
                n <= k,
            decreases self.screens.len() - k,
        {
            proof {
                lemma_active_before_step(self.screens@, k as int);
            }
            if self.screens[k].active {
                n = n + 1;
            }
            k = k + 1;
        }
        n
    }

    /// The environment the screens belong to.
    pub fn environment(&self) -> (r: Environment)
        ensures
            r == self.spec_environment(),
    {
        self.environment
    }

    /// All screens of the snapshot, in the backend's order.
    pub fn screens(&self) -> (r: &Vec<Screen>)
        ensures
            r@ == self.spec_screens(),
    {
        &self.screens
    }

    /// Chooses `wallpapers[i % wallpapers.len()]` for the `i`-th active screen
    /// and `default_wallpaper` for every inactive screen (and for every screen
    /// when `wallpapers` is empty), all with `mode`. `used` lists the images of
    /// the active screens, repeats included.
    pub fn set_wallpapers_from_vec(
        &self,
        wallpapers: &Vec<String>,
        default_wallpaper: &String,
        mode: Mode,
    ) -> (r: Selection)
        ensures
            selection_shape(self.spec_screens(), *default_wallpaper, mode, r),
            r.used@ == vec_used(self.spec_screens(), wallpapers@, *default_wallpaper),
            forall|k: int|
                0 <= k < self.spec_screens().len() ==> (#[trigger] r.choices@[k]).path == vec_choice(
                    self.spec_screens(),
                    wallpapers@,
                    *default_wallpaper,
                    k,
                ),
    {
        let ghost screens = self.screens@;
        let mut choices: Vec<Choice> = Vec::new();
        let mut used: Vec<String> = Vec::new();
        let mut i: usize = 0;
        let mut k: usize = 0;
        while k < self.screens.len()
            invariant
                screens == self.screens@,
                k <= screens.len(),
                i == active_before(screens, k as int),
                i <= k,
                choices@.len() == k,
                used@.len() == i,
                forall|j: int| 0 <= j < k ==> (#[trigger] choices@[j]).mode == mode,
                forall|j: int|
                    0 <= j < k ==> (#[trigger] choices@[j]).path == vec_choice(
                        screens,
                        wallpapers@,
                        *default_wallpaper,
                        j,
                    ),
                forall|j: int|
                    0 <= j < i ==> #[trigger] used@[j] == (if wallpapers@.len() == 0 {
                        *default_wallpaper
                    } else {
                        wallpapers@[j % wallpapers@.len() as int]
                    }),
            decreases screens.len() - k,
        {
            proof {
                lemma_active_before_step(screens, k as int);
            }
            if !self.screens[k].active {
                choices.push(Choice { path: default_wallpaper.clone(), mode });
            } else {
                let path = if wallpapers.len() == 0 {
                    default_wallpaper.clone()
                } else {
                    wallpapers[i % wallpapers.len()].clone()
                };
                used.push(path.clone());
                choices.push(Choice { path, mode });
                i = i + 1;
            }
            k = k + 1;
        }
        let r = Selection { choices, used };
        proof {
            assert(r.used@ =~= vec_used(screens, wallpapers@, *default_wallpaper));
            assert forall|j: int| 0 <= j < screens.len() && screens[j].active implies (
            #[trigger] r.choices@[j]).path == r.used@[active_before(screens, j) as int] by {
                lemma_active_rank_distinct(screens, j, screens.len() as int);
            }
        }
        r
    }
    /// Like `set_wallpapers_from_vec`, but maps the images to the screens at
    /// random, repeating an image only where there are fewer images than
    /// active screens, and then spreading the repeats: each occurrence of an
    /// image is used at most `active / images`, rounded up, times. With no
    /// images every screen takes `default_wallpaper`.
    pub fn set_random_wallpapers_from_vec(
        &self,
        wallpapers: &Vec<String>,
        default_wallpaper: &String,
        mode: Mode,
    ) -> (r: Selection)
        ensures
            selection_shape(self.spec_screens(), *default_wallpaper, mode, r),
            wallpapers@.len() == 0 ==> r.used@ == vec_used(
                self.spec_screens(),
                wallpapers@,
                *default_wallpaper,
            ),
            wallpapers@.len() > 0 ==> forall|i: int|
                0 <= i < r.used@.len() ==> wallpapers@.contains(#[trigger] r.used@[i]),
            wallpapers@.len() >= active_count(self.spec_screens()) && wallpapers@.no_duplicates()
                ==> r.used@.no_duplicates(),
            wallpapers@.len() == 1 ==> forall|i: int|
                0 <= i < r.used@.len() ==> #[trigger] r.used@[i] == wallpapers@[0],
            wallpapers@.len() > 0 ==> forall|x: String|
                #[trigger] r.used@.to_multiset().count(x) <= wallpapers@.to_multiset().count(x)
                    * ceil_div(active_count(self.spec_screens()), wallpapers@.len()),
    {
        if wallpapers.len() == 0 {
            return self.set_wallpapers_from_vec(wallpapers, default_wallpaper, mode);
        }
        let ghost screens = self.screens@;
        let ghost enough = wallpapers@.len() >= active_count(screens) && wallpapers@.no_duplicates();
        let mut rng = rand::thread_rng();
        let screen_count = self.screen_count();
        let active = self.active_screen_count();
        proof {
            lemma_active_before_monotone(screens, 0, screens.len() as int);
            active_count_le_len(screens, screens.len() as int);
        }
        // how many times the pool may hold each occurrence of an image
        let ghost mut rounds: nat = 1;
        let pool: Vec<String> = if wallpapers.len() < screen_count {
            // extend the pool in rounds of distinct images until every active
            // screen can have one
            let mut pool: Vec<String> = Vec::new();
            proof {
                rounds = 0;
                broadcast use vstd::seq_lib::group_to_multiset_ensures;

                assert forall|x: String| #[trigger] pool@.to_multiset().count(x) == 0 by {
                    assert(!pool@.contains(x));
                }
            }
            while pool.len() < active
                invariant
                    screens == self.screens@,
                    enough == (wallpapers@.len() >= active_count(screens)
                        && wallpapers@.no_duplicates()),
                    active == active_count(screens),
                    active <= screen_count,
                    wallpapers@.len() > 0,
                    wallpapers@.len() < screen_count,
                    pool@.len() <= screen_count,
                    forall|i: int| 0 <= i < pool@.len() ==> wallpapers@.contains(#[trigger] pool@[i]),
                    enough ==> (pool@.len() == 0 || (pool@.len() >= active && pool@.no_duplicates())),
                    forall|x: String|
                        #[trigger] pool@.to_multiset().count(x) <= rounds * wallpapers@.to_multiset().count(x),
                    rounds == 0 ==> pool@.len() == 0,
                    rounds > 0 ==> (rounds - 1) * wallpapers@.len() < active,
                    pool@.len() < active ==> pool@.len() == rounds * wallpapers@.len(),
                decreases screen_count - pool@.len(),
            {
                let rest = screen_count - pool.len();
                let count = if rest < wallpapers.len() { rest } else { wallpapers.len() };
                let mut add = choose_multiple(&mut rng, wallpapers, count);
                proof {
                    lemma_sub_multiset_items(add@, wallpapers@);
                    if enough {
                        lemma_sub_multiset_no_duplicates(add@, wallpapers@);
                    }
                }
                let ghost before = pool@;
                let ghost added = add@;
                pool.append(&mut add);
                proof {
                    assert forall|i: int| 0 <= i < pool@.len() implies wallpapers@.contains(
                        #[trigger] pool@[i],
                    ) by {
                        if i >= before.len() {
                            assert(pool@[i] == added[i - before.len()]);
                        }
                    }
                    if enough {
                        assert(pool@ =~= added);
                    }
                    lemma_round_counts(before, added, wallpapers@, rounds);
                    assert(pool@ =~= before + added);
                    assert((rounds + 1) * wallpapers@.len() == rounds * wallpapers@.len() + wallpapers@.len())
                        by (nonlinear_arith);
                    rounds = rounds + 1;
                }
            }
            proof {
                if active > 0 {
                    assert(rounds > 0 && (rounds - 1) * wallpapers@.len() < active);
                }
            }
            pool
        } else {
            let pool = wallpapers.clone();
            proof {
                assert(rounds == 1);
                assert((rounds - 1) * wallpapers@.len() == 0) by (nonlinear_arith)
                    requires
                        rounds == 1,
                ;
                assert forall|x: String|
                    #[trigger] pool@.to_multiset().count(x) <= rounds * wallpapers@.to_multiset().count(x) by {
                    assert(pool@ == wallpapers@);
                }
            }
            pool
        };
        let amount = if screen_count < pool.len() { screen_count } else { pool.len() };
        let mut chosen = choose_multiple(&mut rng, &pool, amount);
        proof {
            lemma_sub_multiset_items(chosen@, pool@);
            if enough {
                lemma_sub_multiset_no_duplicates(chosen@, pool@);
            }
        }
        let ghost drawn = chosen@;
        shuffle(&mut rng, &mut chosen);
        proof {
            lemma_sub_multiset_items(chosen@, drawn);
            if enough {
                lemma_sub_multiset_no_duplicates(chosen@, drawn);
            }
        }
        let r = self.set_wallpapers_from_vec(&chosen, default_wallpaper, mode);
        proof {
            assert(chosen@.len() >= active);
            assert(r.used@ =~= chosen@.subrange(0, active as int)) by {
                assert forall|i: int| 0 <= i < active implies r.used@[i] == chosen@[i] by {
                    lemma_small_mod(i as nat, chosen@.len());
                }
            }
            assert forall|i: int| 0 <= i < r.used@.len() implies wallpapers@.contains(
                #[trigger] r.used@[i],
            ) by {
                assert(r.used@[i] == chosen@[i]);
                assert(pool@.contains(chosen@[i]));
                let j = choose|j: int| 0 <= j < pool@.len() && pool@[j] == chosen@[i];
                assert(wallpapers@.contains(pool@[j]));
            }
            if enough {
                assert forall|a: int, b: int|
                    0 <= a < r.used@.len() && 0 <= b < r.used@.len() && a != b implies r.used@[a]
                    != r.used@[b] by {
                    assert(r.used@[a] == chosen@[a]);
                    assert(r.used@[b] == chosen@[b]);
                }
            }
            if active > 0 {
                lemma_rounds_bound(rounds, wallpapers@.len(), active as nat);
            }
            assert(chosen@.to_multiset() == drawn.to_multiset());
            lemma_repeat_bound(
                r.used@,
                chosen@,
                pool@,
                wallpapers@,
                rounds,
                ceil_div(active as nat, wallpapers@.len()),
            );
        }
        r
    }

    /// Applies `choices[k]` to screen `k`, for every screen, and gives what the
    /// backend must do to show them. The first choice whose path did not
    /// resolve fails the whole batch before anything is run; the choices may
    /// therefore end at that one.
    pub fn set_wallpapers(self, choices: Vec<ResolvedChoice>) -> (r: Result<ApplyPlan, WallpaperError>)
        requires
            choices_cover(self.spec_screens(), choices@),
        ensures
            resolved_all(choices@) ==> (r matches Ok(plan) && plan_matches(
                self.spec_environment(),
                with_choices(self.spec_screens(), choices@),
                plan,
            )),
            !resolved_all(choices@) ==> r is Err && exists|k: int|
                0 <= k < choices@.len() && choices@[k].resolved is Err && (forall|j: int|
                    0 <= j < k ==> (#[trigger] choices@[j]).resolved is Ok) && path_invalid(
                    r->Err_0,
                    choices@[k],
                ),
    {
        proof {
            use_type_invariant(&self);
        }
        let mut assigned: Vec<Screen> = Vec::new();
        let mut k: usize = 0;
        while k < self.screens.len()
            invariant
                choices_cover(self.screens@, choices@),
                k <= self.screens@.len(),
                forall|j: int| 0 <= j < k ==> (#[trigger] choices@[j]).resolved is Ok,
                assigned@ == with_choices(self.screens@, choices@).subrange(0, k as int),
            decreases self.screens@.len() - k,
        {
            if k >= choices.len() {
                assert(choices@[choices@.len() - 1].resolved is Ok);
            }
            let choice = &choices[k];
            match &choice.resolved {
                Ok(path) => {
                    let screen = &self.screens[k];
                    assigned.push(
                        Screen {
                            name: screen.name.clone(),
                            wallpaper: Some(path.clone()),
                            mode: Some(choice.mode),
                            active: screen.active,
                        },
                    );
                    assert(assigned@ =~= with_choices(self.screens@, choices@).subrange(0, k + 1));
                },
                Err(cause) => {
                    let e = WallpaperError::PathInvalid { path: choice.path.clone(), cause: cause.clone() };
                    assert(path_invalid(e, choices@[k as int]));
                    return Err(e);
                },
            }
            k = k + 1;
        }
        assert(assigned@ =~= with_choices(self.screens@, choices@));
        assert(all_assigned(assigned@));
        Ok(plan_for_screens(self.environment, &assigned))
    }
}

} // verus!
