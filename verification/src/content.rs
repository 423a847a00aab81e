//! The content catalog: locations with their roles, question prompts with
//! their categories, and the selections that rooms draw from them.

use vstd::prelude::*;
use vstd::string::*;
use crate::errors::AppError;
use crate::errors::ErrorKind;
use crate::text::{
    copy_texts, distinct_texts, has_text, lower_texts, lowercase_all, lowercase_of, sort_texts,
    to_lower, trim_text, trimmed_of, ascending,
};
use crate::chance::{choose_one, shuffle};

verus! {

/// A place a round can be set in, with the roles its civilians can hold.
#[derive(Debug, PartialEq, Eq)]
pub struct LocationDefinition {
    pub id: u32,
    pub name: String,
    pub roles: Vec<String>,
}

/// What a location is, as mathematical values.
pub struct LocationModel {
    pub id: u32,
    pub name: Seq<char>,
    pub roles: Seq<Seq<char>>,
}

impl DeepView for LocationDefinition {
    type V = LocationModel;

    open spec fn deep_view(&self) -> LocationModel {
        LocationModel { id: self.id, name: self.name@, roles: self.roles.deep_view() }
    }
}

impl Clone for LocationDefinition {
    fn clone(&self) -> (r: Self)
        ensures
            r.deep_view() == self.deep_view(),
    {
        LocationDefinition {
            id: self.id,
            name: self.name.clone(),
            roles: copy_texts(&self.roles),
        }
    }
}

/// Whether a location has a role for each civilian among so many players.
pub open spec fn seats(location: LocationModel, player_count: int) -> bool {
    location.roles.len() + 1 >= player_count
}

impl LocationDefinition {
    /// Whether this location can host a round of so many players.
    pub fn supports(&self, player_count: usize) -> (r: bool)
        ensures
            r == seats(self.deep_view(), player_count as int),
    {
        player_count == 0 || self.roles.len() >= player_count - 1
    }
}

/// A question prompt with the categories it belongs to.
#[derive(Debug, PartialEq, Eq)]
pub struct QuestionPrompt {
    pub id: String,
    pub text: String,
    pub categories: Vec<String>,
}

/// What a question prompt is, as mathematical values.
pub struct QuestionModel {
    pub id: Seq<char>,
    pub text: Seq<char>,
    pub categories: Seq<Seq<char>>,
}

impl DeepView for QuestionPrompt {
    type V = QuestionModel;

    open spec fn deep_view(&self) -> QuestionModel {
        QuestionModel { id: self.id@, text: self.text@, categories: self.categories.deep_view() }
    }
}

impl Clone for QuestionPrompt {
    fn clone(&self) -> (r: Self)
        ensures
            r.deep_view() == self.deep_view(),
    {
        QuestionPrompt {
            id: self.id.clone(),
            text: self.text.clone(),
            categories: copy_texts(&self.categories),
        }
    }
}

/// The lowercase categories of all questions, in catalog order, repeats kept.
pub open spec fn flat_categories(questions: Seq<QuestionModel>) -> Seq<Seq<char>>
    decreases questions.len(),
{
    if questions.len() == 0 {
        Seq::empty()
    } else {
        flat_categories(questions.drop_last()) + lowercase_all(questions.last().categories)
    }
}

/// Whether a question's category keys meet the wanted keys: one of them
/// is wanted, or nothing in particular is wanted.
pub open spec fn fits(wanted_keys: Seq<Seq<char>>, question_keys: Seq<Seq<char>>) -> bool {
    wanted_keys.len() == 0 || exists|j: int|
        0 <= j < question_keys.len() && wanted_keys.contains(#[trigger] question_keys[j])
}

/// Whether a question may be drawn, by its category keys and its id: the
/// keys fit the wanted ones and, unless repeats are allowed, the id is
/// not among the used ones.
pub open spec fn eligible(
    wanted_keys: Seq<Seq<char>>,
    allow_repeats: bool,
    used: Seq<Seq<char>>,
    question_keys: Seq<Seq<char>>,
    id: Seq<char>,
) -> bool {
    fits(wanted_keys, question_keys) && (allow_repeats || !used.contains(id))
}

/// Whether a question belongs to one of the wanted categories, compared in
/// lowercase. No wanted category means every question does.
pub open spec fn in_categories(wanted: Seq<Seq<char>>, question: QuestionModel) -> bool {
    fits(lowercase_all(wanted), lowercase_all(question.categories))
}

/// Whether a question may be drawn: it is in the wanted categories and,
/// unless repeats are allowed, its id is not among the used ones.
pub open spec fn drawable(
    wanted: Seq<Seq<char>>,
    allow_repeats: bool,
    used: Seq<Seq<char>>,
    question: QuestionModel,
) -> bool {
    eligible(
        lowercase_all(wanted),
        allow_repeats,
        used,
        lowercase_all(question.categories),
        question.id,
    )
}

/// The key under which a requested category is looked up.
pub open spec fn category_key(requested: Seq<char>) -> Seq<char> {
    lowercase_of(trimmed_of(requested))
}

/// The keys of a list of requested categories, in order.
pub open spec fn category_keys(requested: Seq<Seq<char>>) -> Seq<Seq<char>> {
    requested.map_values(|s: Seq<char>| category_key(s))
}

/// Whether a key names no known category. An empty key is skipped, not unknown.
pub open spec fn unknown_key(known: Seq<Seq<char>>, key: Seq<char>) -> bool {
    key.len() > 0 && !known.contains(key)
}

/// Whether one of the keys names no known category.
pub open spec fn any_unknown(known: Seq<Seq<char>>, keys: Seq<Seq<char>>) -> bool {
    exists|i: int| 0 <= i < keys.len() && unknown_key(known, #[trigger] keys[i])
}

/// The non-empty keys in order of first appearance, each once.
pub open spec fn kept_keys(keys: Seq<Seq<char>>) -> Seq<Seq<char>>
    decreases keys.len(),
{
    if keys.len() == 0 {
        Seq::empty()
    } else {
        let before = kept_keys(keys.drop_last());
        let key = keys.last();
        if key.len() == 0 || before.contains(key) {
            before
        } else {
            before.push(key)
        }
    }
}

/// The categories that a list of keys selects from the known ones: every
/// known category where a key is unknown or no key is left, otherwise the
/// non-empty keys in order of first appearance, each once.
pub open spec fn selected(known: Seq<Seq<char>>, keys: Seq<Seq<char>>) -> Seq<Seq<char>> {
    if any_unknown(known, keys) || kept_keys(keys).len() == 0 {
        known
    } else {
        kept_keys(keys)
    }
}

/// The seat count of a location as a byte: roles plus one, at most 255.
pub open spec fn seat_byte(location: LocationModel) -> u8 {
    if location.roles.len() >= 255 {
        255
    } else {
        (location.roles.len() + 1) as u8
    }
}

/// The largest seat byte among the first `n` locations, or 0 for none.
pub open spec fn max_seat_byte(locations: Seq<LocationModel>, n: int) -> u8
    decreases n,
{
    if n <= 0 {
        0
    } else {
        let rest = max_seat_byte(locations, n - 1);
        let here = seat_byte(locations[n - 1]);
        if here > rest {
            here
        } else {
            rest
        }
    }
}

/// The immutable catalog that every room reads.
#[derive(Debug)]
pub struct GameContent {
    pub locations: Vec<LocationDefinition>,
    pub questions: Vec<QuestionPrompt>,
    pub categories: Vec<String>,
}

impl GameContent {
    /// Builds the catalog from its locations and questions. Fails as
    /// unexpected when either list is empty. The category list is the
    /// lowercase categories of all questions, ascending, each once.
    pub fn new(locations: Vec<LocationDefinition>, questions: Vec<QuestionPrompt>) -> (r: Result<
        GameContent,
        AppError,
    >)
        ensures
            r is Err <==> (locations.len() == 0 || questions.len() == 0),
            r matches Err(e) ==> e.kind() == ErrorKind::Unexpected,
            r matches Ok(c) ==> {
                &&& c.locations == locations
                &&& c.questions == questions
                &&& c.categories.deep_view().no_duplicates()
                &&& ascending(c.categories.deep_view())
                &&& c.categories.deep_view().to_set() == flat_categories(
                    questions.deep_view(),
                ).to_set()
            },
    {
        if locations.len() == 0 {
            return Err(AppError::unexpected("no locations configured"));
        }
        if questions.len() == 0 {
            return Err(AppError::unexpected("no questions configured"));
        }
        let mut all: Vec<String> = Vec::new();
        let mut i: usize = 0;
        while i < questions.len()
            invariant
                i <= questions.len(),
                all.deep_view() == flat_categories(questions.deep_view().take(i as int)),
            decreases questions.len() - i,
        {
            let mut lowered = lower_texts(&questions[i].categories);
            let ghost before = all.deep_view();
            let ghost added = lowered.deep_view();
            all.append(&mut lowered);
            proof {
                let qs = questions.deep_view();
                assert(all.deep_view() =~= before + added);
                assert(qs.take(i + 1).drop_last() =~= qs.take(i as int));
                assert(qs.take(i + 1).last() == qs[i as int]);
            }
            i += 1;
        }
        proof {
            assert(questions.deep_view().take(questions.len() as int) =~= questions.deep_view());
        }
        let ghost flat = all.deep_view();
        sort_texts(&mut all);
        let categories = distinct_texts(&all);
        proof {
            let sorted = all.deep_view();
            assert forall|x: Seq<char>| sorted.to_set().contains(x) <==> flat.to_set().contains(
                x,
            ) by {
                vstd::seq_lib::to_multiset_contains(sorted, x);
                vstd::seq_lib::to_multiset_contains(flat, x);
            }
            assert(sorted.to_set() =~= flat.to_set());
        }
        Ok(GameContent { locations, questions, categories })
    }

    /// Every category of the catalog.
    pub fn default_categories(&self) -> (r: Vec<String>)
        ensures
            r.deep_view() == self.categories.deep_view(),
    {
        copy_texts(&self.categories)
    }

    /// The number of locations in the catalog.
    pub fn max_location_pool(&self) -> (r: usize)
        ensures
            r == self.locations.len(),
    {
        self.locations.len()
    }

    /// The largest seat byte of any location; 8 for an empty catalog.
    pub fn max_player_capacity(&self) -> (r: u8)
        ensures
            self.locations.len() == 0 ==> r == 8,
            self.locations.len() > 0 ==> r == max_seat_byte(
                self.locations.deep_view(),
                self.locations.len() as int,
            ),
    {
        if self.locations.len() == 0 {
            return 8;
        }
        let mut best: u8 = 0;
        let mut i: usize = 0;
        while i < self.locations.len()
            invariant
                i <= self.locations.len(),
                best == max_seat_byte(self.locations.deep_view(), i as int),
            decreases self.locations.len() - i,
        {
            let roles: usize = self.locations[i].roles.len();
            let here: u8 = if roles >= 255 {
                255
            } else {
                (roles + 1) as u8
            };
            assert(here == seat_byte(self.locations.deep_view()[i as int]));
            if here > best {
                best = here;
            }
            i += 1;
        }
        best
    }
}

/// How many of the first `n` locations can host so many players.
pub open spec fn seat_count(locations: Seq<LocationModel>, player_count: int, n: int) -> nat
    decreases n,
{
    if n <= 0 {
        0
    } else {
        seat_count(locations, player_count, n - 1) + if seats(locations[n - 1], player_count) {
            1nat
        } else {
            0nat
        }
    }
}

/// Whether `picks` are distinct places in `locations`, each able to host so
/// many players.
pub open spec fn distinct_seated(
    locations: Seq<LocationModel>,
    player_count: int,
    picks: Seq<usize>,
) -> bool {
    &&& picks.no_duplicates()
    &&& forall|k: int|
        0 <= k < picks.len() ==> 0 <= #[trigger] picks[k] < locations.len() && seats(
            locations[picks[k] as int],
            player_count,
        )
}

/// Whether a pool was drawn from the locations: as many as asked for, as
/// far as enough locations can host so many players, each of them such a
/// location, and no location taken twice.
pub open spec fn is_pool_of(
    locations: Seq<LocationModel>,
    player_count: int,
    pool_size: int,
    pool: Seq<LocationModel>,
) -> bool {
    &&& pool.len() == vstd::math::min(
        pool_size,
        seat_count(locations, player_count, locations.len() as int) as int,
    )
    &&& exists|picks: Seq<usize>|
        {
            &&& #[trigger] distinct_seated(locations, player_count, picks)
            &&& picks.len() == pool.len()
            &&& forall|k: int|
                0 <= k < pool.len() ==> #[trigger] pool[k] == locations[picks[k] as int]
        }
}

/// The places of the locations that can host so many players, ascending.
pub fn seated_places(locations: &Vec<LocationDefinition>, player_count: usize) -> (r: Vec<usize>)
    ensures
        distinct_seated(locations.deep_view(), player_count as int, r@),
        r@.len() == seat_count(
            locations.deep_view(),
            player_count as int,
            locations.len() as int,
        ),
        forall|i: int|
            0 <= i < locations.len() && seats(
                #[trigger] locations.deep_view()[i],
                player_count as int,
            ) ==> r@.contains(i as usize),
{
    let mut out: Vec<usize> = Vec::new();
    let mut i: usize = 0;
    while i < locations.len()
        invariant
            i <= locations.len(),
            out@.len() == seat_count(locations.deep_view(), player_count as int, i as int),
            out@.no_duplicates(),
            forall|k: int|
                0 <= k < out@.len() ==> 0 <= #[trigger] out@[k] < i && seats(
                    locations.deep_view()[out@[k] as int],
                    player_count as int,
                ),
            forall|m: int|
                0 <= m < i && seats(#[trigger] locations.deep_view()[m], player_count as int)
                    ==> out@.contains(m as usize),
        decreases locations.len() - i,
    {
        let ghost before = out@;
        if locations[i].supports(player_count) {
            out.push(i);
            proof {
                assert forall|m: int|
                    0 <= m < i + 1 && seats(
                        #[trigger] locations.deep_view()[m],
                        player_count as int,
                    ) implies out@.contains(m as usize) by {
                    if m < i {
                        let w = choose|w: int| 0 <= w < before.len() && before[w] == m as usize;
                        assert(out@[w] == m as usize);
                    } else {
                        assert(out@[before.len() as int] == m as usize);
                    }
                }
            }
        }
        i += 1;
    }
    out
}

/// Whether a question, by its category keys, meets the wanted keys.
pub fn keys_fit(wanted_keys: &Vec<String>, question_keys: &Vec<String>) -> (r: bool)
    ensures
        r == fits(wanted_keys.deep_view(), question_keys.deep_view()),
{
    if wanted_keys.len() == 0 {
        return true;
    }
    let mut j: usize = 0;
    while j < question_keys.len()
        invariant
            j <= question_keys.len(),
            wanted_keys.deep_view().len() > 0,
            forall|m: int|
                0 <= m < j ==> !wanted_keys.deep_view().contains(
                    #[trigger] question_keys.deep_view()[m],
                ),
        decreases question_keys.len() - j,
    {
        if has_text(wanted_keys, &question_keys[j]) {
            assert(question_keys.deep_view()[j as int] == question_keys[j as int]@);
            return true;
        }
        assert(question_keys.deep_view()[j as int] == question_keys[j as int]@);
        j += 1;
    }
    false
}

/// The places of the questions that may be drawn, ascending. Each
/// question goes by its category keys, given beside the questions, and
/// its id.
pub fn eligible_questions(
    questions: &Vec<QuestionPrompt>,
    keys: &Vec<Vec<String>>,
    wanted_keys: &Vec<String>,
    allow_repeats: bool,
    used: &Vec<String>,
) -> (r: Vec<usize>)
    requires
        keys.len() == questions.len(),
    ensures
        forall|k: int|
            0 <= k < r@.len() ==> 0 <= #[trigger] r@[k] < questions.len() && eligible(
                wanted_keys.deep_view(),
                allow_repeats,
                used.deep_view(),
                keys[r@[k] as int].deep_view(),
                questions[r@[k] as int].id@,
            ),
        forall|i: int|
            0 <= i < questions.len() && eligible(
                wanted_keys.deep_view(),
                allow_repeats,
                used.deep_view(),
                (#[trigger] keys[i]).deep_view(),
                questions[i].id@,
            ) ==> r@.contains(i as usize),
        forall|a: int, b: int| 0 <= a < b < r@.len() ==> r@[a] < r@[b],
{
    let mut pool: Vec<usize> = Vec::new();
    let mut i: usize = 0;
    while i < questions.len()
        invariant
            i <= questions.len(),
            keys.len() == questions.len(),
            forall|k: int|
                0 <= k < pool@.len() ==> 0 <= #[trigger] pool@[k] < i && eligible(
                    wanted_keys.deep_view(),
                    allow_repeats,
                    used.deep_view(),
                    keys[pool@[k] as int].deep_view(),
                    questions[pool@[k] as int].id@,
                ),
            forall|m: int|
                0 <= m < i && eligible(
                    wanted_keys.deep_view(),
                    allow_repeats,
                    used.deep_view(),
                    (#[trigger] keys[m]).deep_view(),
                    questions[m].id@,
                ) ==> pool@.contains(m as usize),
            forall|a: int, b: int| 0 <= a < b < pool@.len() ==> pool@[a] < pool@[b],
        decreases questions.len() - i,
    {
        let ghost before = pool@;
        if keys_fit(wanted_keys, &keys[i]) && (allow_repeats || !has_text(used, &questions[i].id)) {
            pool.push(i);
            proof {
                assert forall|m: int|
                    0 <= m < i + 1 && eligible(
                        wanted_keys.deep_view(),
                        allow_repeats,
                        used.deep_view(),
                        (#[trigger] keys[m]).deep_view(),
                        questions[m].id@,
                    ) implies pool@.contains(m as usize) by {
                    if m < i {
                        let w = choose|w: int| 0 <= w < before.len() && before[w] == m as usize;
                        assert(pool@[w] == m as usize);
                    } else {
                        assert(pool@[before.len() as int] == m as usize);
                    }
                }
            }
        }
        i += 1;
    }
    pool
}

impl GameContent {
    /// Up to `pool_size` locations that can host so many players, picked
    /// at random without repeats.
    pub fn random_location_pool(&self, pool_size: usize, player_count: usize) -> (r: Vec<
        LocationDefinition,
    >)
        ensures
            is_pool_of(
                self.locations.deep_view(),
                player_count as int,
                pool_size as int,
                r.deep_view(),
            ),
    {
        let mut places = seated_places(&self.locations, player_count);
        let ghost ordered = places@;
        shuffle(&mut places);
        proof {
            crate::perm::lemma_same_items(ordered, places@);
            assert forall|k: int| 0 <= k < places@.len() implies 0 <= #[trigger] places@[k]
                < self.locations.len() && seats(
                self.locations.deep_view()[places@[k] as int],
                player_count as int,
            ) by {
                assert(places@.contains(places@[k]));
                let w = choose|w: int| 0 <= w < ordered.len() && ordered[w] == places@[k];
                assert(0 <= ordered[w] < self.locations.len());
            }
        }
        let mut out: Vec<LocationDefinition> = Vec::new();
        let mut k: usize = 0;
        while k < places.len() && k < pool_size
            invariant
                k <= places.len(),
                k <= pool_size,
                out.len() == k,
                forall|m: int|
                    0 <= m < places@.len() ==> 0 <= #[trigger] places@[m] < self.locations.len(),
                forall|m: int|
                    0 <= m < k ==> #[trigger] out.deep_view()[m]
                        == self.locations.deep_view()[places@[m] as int],
            decreases places.len() - k,
        {
            let ghost before = out.deep_view();
            out.push(self.locations[places[k]].clone());
            proof {
                assert(out.deep_view() =~= before.push(
                    self.locations.deep_view()[places@[k as int] as int],
                ));
            }
            k += 1;
        }
        proof {
            let picks = places@.take(k as int);
            assert(distinct_seated(self.locations.deep_view(), player_count as int, picks));
        }
        out
    }

    /// A question drawn at random among those in the wanted categories
    /// and, unless repeats are allowed, not yet used. `None` exactly when
    /// there is no such question.
    pub fn random_question(
        &self,
        categories: &Vec<String>,
        allow_repeats: bool,
        used_question_ids: &Vec<String>,
    ) -> (r: Option<&QuestionPrompt>)
        ensures
            r is None <==> forall|i: int|
                0 <= i < self.questions.len() ==> !drawable(
                    categories.deep_view(),
                    allow_repeats,
                    used_question_ids.deep_view(),
                    #[trigger] self.questions.deep_view()[i],
                ),
            r matches Some(q) ==> exists|i: int|
                0 <= i < self.questions.len() && *q == #[trigger] self.questions[i] && drawable(
                    categories.deep_view(),
                    allow_repeats,
                    used_question_ids.deep_view(),
                    self.questions.deep_view()[i],
                ),
    {
        let wanted_keys = lower_texts(categories);
        let mut keys: Vec<Vec<String>> = Vec::new();
        let mut i: usize = 0;
        while i < self.questions.len()
            invariant
                i <= self.questions.len(),
                keys.len() == i,
                forall|k: int|
                    0 <= k < i ==> (#[trigger] keys[k]).deep_view() == lowercase_all(
                        self.questions[k].categories.deep_view(),
                    ),
            decreases self.questions.len() - i,
        {
            keys.push(lower_texts(&self.questions[i].categories));
            i += 1;
        }
        let pool = eligible_questions(
            &self.questions,
            &keys,
            &wanted_keys,
            allow_repeats,
            used_question_ids,
        );
        proof {
            assert forall|i: int| 0 <= i < self.questions.len() implies drawable(
                categories.deep_view(),
                allow_repeats,
                used_question_ids.deep_view(),
                #[trigger] self.questions.deep_view()[i],
            ) == eligible(
                wanted_keys.deep_view(),
                allow_repeats,
                used_question_ids.deep_view(),
                keys[i].deep_view(),
                self.questions[i].id@,
            ) by {}
        }
        match choose_one(&pool) {
            Some(place) => {
                proof {
                    let k = choose|k: int| 0 <= k < pool@.len() && pool@[k] == place;
                    assert(0 <= pool@[k] < self.questions.len());
                    assert(drawable(
                        categories.deep_view(),
                        allow_repeats,
                        used_question_ids.deep_view(),
                        self.questions.deep_view()[place as int],
                    ));
                }
                Some(&self.questions[place])
            },
            None => {
                assert forall|i: int| 0 <= i < self.questions.len() implies !drawable(
                    categories.deep_view(),
                    allow_repeats,
                    used_question_ids.deep_view(),
                    #[trigger] self.questions.deep_view()[i],
                ) by {
                    if drawable(
                        categories.deep_view(),
                        allow_repeats,
                        used_question_ids.deep_view(),
                        self.questions.deep_view()[i],
                    ) {
                        assert(pool@.contains(i as usize));
                    }
                }
                None
            },
        }
    }

    /// The categories that a list of keys selects, as `selected` says:
    /// every category of the catalog where a key is unknown or no key is
    /// left, otherwise the non-empty keys in order of first appearance,
    /// each once.
    pub fn choose_categories(&self, keys: &Vec<String>) -> (r: Vec<String>)
        ensures
            r.deep_view() == selected(self.categories.deep_view(), keys.deep_view()),
    {
        let mut cleaned: Vec<String> = Vec::new();
        let mut i: usize = 0;
        while i < keys.len()
            invariant
                i <= keys.len(),
                cleaned.deep_view() == kept_keys(keys.deep_view().take(i as int)),
                forall|m: int|
                    0 <= m < i ==> !unknown_key(
                        self.categories.deep_view(),
                        #[trigger] keys.deep_view()[m],
                    ),
            decreases keys.len() - i,
        {
            let key = &keys[i];
            proof {
                let ks = keys.deep_view();
                assert(ks.take(i + 1).drop_last() =~= ks.take(i as int));
                assert(ks.take(i + 1).last() == key@);
            }
            if key.as_str().unicode_len() != 0 {
                if !has_text(&self.categories, key) {
                    assert(unknown_key(self.categories.deep_view(), keys.deep_view()[i as int]));
                    return copy_texts(&self.categories);
                }
                if !has_text(&cleaned, key) {
                    let ghost before = cleaned.deep_view();
                    cleaned.push(key.clone());
                    assert(cleaned.deep_view() =~= before.push(key@));
                }
            }
            i += 1;
        }
        proof {
            assert(keys.deep_view().take(keys.len() as int) =~= keys.deep_view());
        }
        if cleaned.len() == 0 {
            copy_texts(&self.categories)
        } else {
            cleaned
        }
    }

    /// Resolves requested categories against the catalog. Each request is
    /// trimmed and lowercased into its key, then the keys select as
    /// `selected` says. The call always succeeds: no request at all, only
    /// blank requests, and a request for an unknown category each select
    /// every category.
    pub fn normalize_categories(&self, requested: &Vec<String>) -> (r: Result<
        Vec<String>,
        AppError,
    >)
        ensures
            r matches Ok(list) && list.deep_view() == selected(
                self.categories.deep_view(),
                category_keys(requested.deep_view()),
            ),
    {
        let mut keys: Vec<String> = Vec::new();
        let mut i: usize = 0;
        while i < requested.len()
            invariant
                i <= requested.len(),
                keys.len() == i,
                forall|m: int| 0 <= m < i ==> keys[m]@ == category_key(requested[m]@),
            decreases requested.len() - i,
        {
            let trimmed = trim_text(requested[i].as_str());
            keys.push(to_lower(trimmed));
            i += 1;
        }
        assert(keys.deep_view() =~= category_keys(requested.deep_view()));
        Ok(self.choose_categories(&keys))
    }
}

} // verus!
