//! Missions as authors describe them: the missions that a character offers,
//! the tasks of a mission, and the kinds of task.

use vstd::prelude::*;
use crate::dict::{duplicate_all, duplicate_text, text_view, Dict, Duplicate};
use crate::error::{ModError, ModErrorView};
use crate::text::same_text;
use crate::value::{views, JsonValue, JsonView};

verus! {

/// A mission that a character offers or accepts.
#[derive(Debug, PartialEq, Eq)]
pub struct MissionOffer {
    pub mission: String,
    pub accept: bool,
    pub offer: bool,
}

pub struct MissionOfferView {
    pub mission: Seq<char>,
    pub accept: bool,
    pub offer: bool,
}

impl View for MissionOffer {
    type V = MissionOfferView;

    open spec fn view(&self) -> MissionOfferView {
        MissionOfferView { mission: self.mission@, accept: self.accept, offer: self.offer }
    }
}

impl Duplicate for MissionOffer {
    fn duplicate(&self) -> (out: Self) {
        MissionOffer { mission: self.mission.clone(), accept: self.accept, offer: self.offer }
    }
}

/// One task of a mission. Each item of `group` is held as the text in which
/// it is written out.
pub struct MissionTask {
    pub task_type: String,
    pub target: JsonValue,
    pub count: i32,
    pub group: Vec<String>,
    pub target_group_string: Option<String>,
    pub parameters: Option<String>,
    pub icon: String,
    pub small_icon: String,
    pub locale: Dict<String>,
}

pub struct MissionTaskView {
    pub task_type: Seq<char>,
    pub target: JsonView,
    pub count: i32,
    pub group: Seq<Seq<char>>,
    pub target_group_string: Option<Seq<char>>,
    pub parameters: Option<Seq<char>>,
    pub icon: Seq<char>,
    pub small_icon: Seq<char>,
    pub locale: Seq<(Seq<char>, Seq<char>)>,
}

impl View for MissionTask {
    type V = MissionTaskView;

    open spec fn view(&self) -> MissionTaskView {
        MissionTaskView {
            task_type: self.task_type@,
            target: self.target@,
            count: self.count,
            group: views(self.group@),
            target_group_string: text_view(self.target_group_string),
            parameters: text_view(self.parameters),
            icon: self.icon@,
            small_icon: self.small_icon@,
            locale: self.locale@,
        }
    }
}

impl Duplicate for MissionTask {
    fn duplicate(&self) -> (out: Self) {
        MissionTask {
            task_type: self.task_type.clone(),
            target: self.target.clone(),
            count: self.count,
            group: duplicate_all(&self.group),
            target_group_string: duplicate_text(&self.target_group_string),
            parameters: duplicate_text(&self.parameters),
            icon: self.icon.clone(),
            small_icon: self.small_icon.clone(),
            locale: self.locale.duplicate(),
        }
    }
}

/// The code of the kind of task called `name`, if there is one.
pub open spec fn task_type_code(name: Seq<char>) -> Option<i32> {
    if name == "Smash"@ {
        Some(0i32)
    }     else if name == "Script"@ {
        Some(1i32)
    }     else if name == "Activity"@ {
        Some(2i32)
    }     else if name == "Environment"@ {
        Some(3i32)
    }     else if name == "MissionInteraction"@ {
        Some(4i32)
    }     else if name == "Emote"@ {
        Some(5i32)
    }     else if name == "Food"@ {
        Some(9i32)
    }     else if name == "Skill"@ {
        Some(10i32)
    }     else if name == "ItemCollection"@ {
        Some(11i32)
    }     else if name == "Location"@ {
        Some(12i32)
    }     else if name == "Minigame"@ {
        Some(14i32)
    }     else if name == "NonMissionInteraction"@ {
        Some(15i32)
    }     else if name == "MissionComplete"@ {
        Some(16i32)
    }     else if name == "Powerup"@ {
        Some(21i32)
    }     else if name == "PetTaming"@ {
        Some(22i32)
    }     else if name == "Racing"@ {
        Some(23i32)
    }     else if name == "PlayerFlag"@ {
        Some(24i32)
    }     else if name == "VisitProperty"@ {
        Some(30i32)
    } else {
        None
    }
}

/// The code of the kind of task called `input`; a name outside the table is
/// refused.
pub fn parse_mission_task_type(input: &str) -> (code: Result<i32, ModError>)
    ensures
        match task_type_code(input@) {
            Some(c) => code == Ok::<i32, ModError>(c),
            None => code matches Err(e) && e@ == ModErrorView::UnknownMissionTaskType(input@),
        },
{
    if same_text(input, "Smash") {
        Ok(0)
    }     else if same_text(input, "Script") {
        Ok(1)
    }     else if same_text(input, "Activity") {
        Ok(2)
    }     else if same_text(input, "Environment") {
        Ok(3)
    }     else if same_text(input, "MissionInteraction") {
        Ok(4)
    }     else if same_text(input, "Emote") {
        Ok(5)
    }     else if same_text(input, "Food") {
        Ok(9)
    }     else if same_text(input, "Skill") {
        Ok(10)
    }     else if same_text(input, "ItemCollection") {
        Ok(11)
    }     else if same_text(input, "Location") {
        Ok(12)
    }     else if same_text(input, "Minigame") {
        Ok(14)
    }     else if same_text(input, "NonMissionInteraction") {
        Ok(15)
    }     else if same_text(input, "MissionComplete") {
        Ok(16)
    }     else if same_text(input, "Powerup") {
        Ok(21)
    }     else if same_text(input, "PetTaming") {
        Ok(22)
    }     else if same_text(input, "Racing") {
        Ok(23)
    }     else if same_text(input, "PlayerFlag") {
        Ok(24)
    }     else if same_text(input, "VisitProperty") {
        Ok(30)
    } else {
        Err(ModError::UnknownMissionTaskType(String::from_str(input)))
    }
}

} // verus!
