//! The rules of a room and their normalisation against the catalog.

use vstd::prelude::*;
use vstd::string::*;
use crate::content::{category_keys, max_seat_byte, selected, GameContent};
use crate::errors::AppError;
use crate::text::copy_texts;

verus! {

/// The settings a host can choose for a room.
#[derive(Debug, PartialEq, Eq)]
pub struct GameRules {
    pub max_players: u8,
    pub round_time_seconds: u16,
    pub allow_repeated_questions: bool,
    pub location_pool_size: u8,
    pub question_categories: Vec<String>,
}

/// What a set of rules is, as mathematical values.
pub struct RulesModel {
    pub max_players: u8,
    pub round_time_seconds: u16,
    pub allow_repeated_questions: bool,
    pub location_pool_size: u8,
    pub question_categories: Seq<Seq<char>>,
}

impl DeepView for GameRules {
    type V = RulesModel;

    open spec fn deep_view(&self) -> RulesModel {
        RulesModel {
            max_players: self.max_players,
            round_time_seconds: self.round_time_seconds,
            allow_repeated_questions: self.allow_repeated_questions,
            location_pool_size: self.location_pool_size,
            question_categories: self.question_categories.deep_view(),
        }
    }
}

impl Clone for GameRules {
    fn clone(&self) -> (r: Self)
        ensures
            r.deep_view() == self.deep_view(),
    {
        GameRules {
            max_players: self.max_players,
            round_time_seconds: self.round_time_seconds,
            allow_repeated_questions: self.allow_repeated_questions,
            location_pool_size: self.location_pool_size,
            question_categories: copy_texts(&self.question_categories),
        }
    }
}

impl Default for GameRules {
    fn default() -> (r: Self)
        ensures
            r.max_players == 8,
            r.round_time_seconds == 120,
            !r.allow_repeated_questions,
            r.location_pool_size == 10,
            r.question_categories@.len() == 0,
    {
        GameRules {
            max_players: 8,
            round_time_seconds: 120,
            allow_repeated_questions: false,
            location_pool_size: 10,
            question_categories: Vec::new(),
        }
    }
}

/// A value brought into the range from `low` to `high`.
pub open spec fn clamped(value: int, low: int, high: int) -> int {
    if value < low {
        low
    } else if value > high {
        high
    } else {
        value
    }
}

/// The most players any location of the catalog seats, at least 3.
pub open spec fn player_ceiling(content: &GameContent) -> int {
    let capacity: int = if content.locations.len() == 0 {
        8
    } else {
        max_seat_byte(content.locations.deep_view(), content.locations.len() as int) as int
    };
    if capacity < 3 {
        3
    } else {
        capacity
    }
}

/// The largest pool a room can ask for: the catalog size, from 1 to 255.
pub open spec fn pool_ceiling(content: &GameContent) -> int {
    clamped(content.locations.len() as int, 1, 255)
}

/// Rules with each setting brought into its bounds: players into 3 up to
/// the catalog's capacity, the round time into 30 up to 600 seconds, the
/// pool size into 1 up to the catalog's size, and the categories as
/// their keys select: every category where one is unknown or none is left.
pub open spec fn normal_form(rules: RulesModel, content: &GameContent) -> RulesModel {
    RulesModel {
        max_players: clamped(rules.max_players as int, 3, player_ceiling(content)) as u8,
        round_time_seconds: clamped(rules.round_time_seconds as int, 30, 600) as u16,
        allow_repeated_questions: rules.allow_repeated_questions,
        location_pool_size: clamped(rules.location_pool_size as int, 1, pool_ceiling(content)) as u8,
        question_categories: selected(
            content.categories.deep_view(),
            category_keys(rules.question_categories),
        ),
    }
}

impl GameRules {
    /// Brings each setting into its bounds, as `normal_form` says. The
    /// call always succeeds.
    pub fn normalize(self, content: &GameContent) -> (r: Result<GameRules, AppError>)
        ensures
            r matches Ok(rules) && rules.deep_view() == normal_form(self.deep_view(), content),
    {
        let capacity: u8 = content.max_player_capacity();
        let ceiling: u8 = if capacity < 3 {
            3
        } else {
            capacity
        };
        let max_players: u8 = if self.max_players < 3 {
            3
        } else if self.max_players > ceiling {
            ceiling
        } else {
            self.max_players
        };
        let round_time_seconds: u16 = if self.round_time_seconds < 30 {
            30
        } else if self.round_time_seconds > 600 {
            600
        } else {
            self.round_time_seconds
        };
        let catalog: usize = content.max_location_pool();
        let pool_max: u8 = if catalog < 1 {
            1
        } else if catalog > 255 {
            255
        } else {
            catalog as u8
        };
        let location_pool_size: u8 = if self.location_pool_size < 1 {
            1
        } else if self.location_pool_size > pool_max {
            pool_max
        } else {
            self.location_pool_size
        };
        match content.normalize_categories(&self.question_categories) {
            Ok(question_categories) => Ok(
                GameRules {
                    max_players,
                    round_time_seconds,
                    allow_repeated_questions: self.allow_repeated_questions,
                    location_pool_size,
                    question_categories,
                },
            ),
            Err(e) => Err(e),
        }
    }
}

} // verus!
