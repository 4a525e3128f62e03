//! The closed table of component types, and the table that a kind of mod
//! targets.

use vstd::prelude::*;
use crate::error::{ModError, ModErrorView};
use crate::text::{chars_of, finishes_with, matches_at, same_text};

verus! {

/// The code of the component type called `name`, if there is one.
pub open spec fn component_code(name: Seq<char>) -> Option<i32> {
    if name == "ControllablePhysicsComponent"@ {
        Some(1i32)
    }     else if name == "RenderComponent"@ {
        Some(2i32)
    }     else if name == "SimplePhysicsComponent"@ {
        Some(3i32)
    }     else if name == "CharacterComponent"@ {
        Some(4i32)
    }     else if name == "ScriptComponent"@ {
        Some(5i32)
    }     else if name == "BouncerComponent"@ {
        Some(6i32)
    }     else if name == "DestructibleComponent"@ {
        Some(7i32)
    }     else if name == "GhostComponent"@ {
        Some(8i32)
    }     else if name == "SkillComponent"@ {
        Some(9i32)
    }     else if name == "SpawnerComponent"@ {
        Some(10i32)
    }     else if name == "ItemComponent"@ {
        Some(11i32)
    }     else if name == "RebuildComponent"@ {
        Some(12i32)
    }     else if name == "RebuildStartComponent"@ {
        Some(13i32)
    }     else if name == "RebuildActivatorComponent"@ {
        Some(14i32)
    }     else if name == "IconOnlyComponent"@ {
        Some(15i32)
    }     else if name == "VendorComponent"@ {
        Some(16i32)
    }     else if name == "InventoryComponent"@ {
        Some(17i32)
    }     else if name == "ProjectilePhysicsComponent"@ {
        Some(18i32)
    }     else if name == "ShootingGalleryComponent"@ {
        Some(19i32)
    }     else if name == "RigidBodyPhantomPhysicsComponent"@ {
        Some(20i32)
    }     else if name == "DropEffectComponent"@ {
        Some(21i32)
    }     else if name == "ChestComponent"@ {
        Some(22i32)
    }     else if name == "CollectibleComponent"@ {
        Some(23i32)
    }     else if name == "BlueprintComponent"@ {
        Some(24i32)
    }     else if name == "MovingPlatformComponent"@ {
        Some(25i32)
    }     else if name == "PetComponent"@ {
        Some(26i32)
    }     else if name == "PlatformBoundaryComponent"@ {
        Some(27i32)
    }     else if name == "ModuleComponent"@ {
        Some(28i32)
    }     else if name == "ArcadeComponent"@ {
        Some(29i32)
    }     else if name == "VehiclePhysicsComponent"@ {
        Some(30i32)
    }     else if name == "MovementAIComponent"@ {
        Some(31i32)
    }     else if name == "ExhibitComponent"@ {
        Some(32i32)
    }     else if name == "OverheadIconComponent"@ {
        Some(33i32)
    }     else if name == "PetControlComponent"@ {
        Some(34i32)
    }     else if name == "MinifigComponent"@ {
        Some(35i32)
    }     else if name == "PropertyComponent"@ {
        Some(36i32)
    }     else if name == "PetCreatorComponent"@ {
        Some(37i32)
    }     else if name == "ModelBuilderComponent"@ {
        Some(38i32)
    }     else if name == "ScriptedActivityComponent"@ {
        Some(39i32)
    }     else if name == "PhantomPhysicsComponent"@ {
        Some(40i32)
    }     else if name == "SpringpadComponent"@ {
        Some(41i32)
    }     else if name == "B3BehaviorsComponent"@ {
        Some(42i32)
    }     else if name == "PropertyEntranceComponent"@ {
        Some(43i32)
    }     else if name == "FXComponent"@ {
        Some(44i32)
    }     else if name == "PropertyManagementComponent"@ {
        Some(45i32)
    }     else if name == "SecondVehiclePhysicsComponent"@ {
        Some(46i32)
    }     else if name == "PhysicsSystemComponent"@ {
        Some(47i32)
    }     else if name == "QuickBuildComponent"@ {
        Some(48i32)
    }     else if name == "SwitchComponent"@ {
        Some(49i32)
    }     else if name == "MinigameComponent"@ {
        Some(50i32)
    }     else if name == "ChanglingComponent"@ {
        Some(51i32)
    }     else if name == "ChoiceBuildComponent"@ {
        Some(52i32)
    }     else if name == "PackageComponent"@ {
        Some(53i32)
    }     else if name == "SoundRepeaterComponent"@ {
        Some(54i32)
    }     else if name == "SoundAmbient2DComponent"@ {
        Some(55i32)
    }     else if name == "SoundAmbient3DComponent"@ {
        Some(56i32)
    }     else if name == "PreconditionComponent"@ {
        Some(57i32)
    }     else if name == "PlayerFlagsComponent"@ {
        Some(58i32)
    }     else if name == "CustomBuildAssemblyComponent"@ {
        Some(59i32)
    }     else if name == "BaseCombatAIComponent"@ {
        Some(60i32)
    }     else if name == "ModuleAssemblyComponent"@ {
        Some(61i32)
    }     else if name == "ShowcaseModelHandlerComponent"@ {
        Some(62i32)
    }     else if name == "RacingModuleComponent"@ {
        Some(63i32)
    }     else if name == "GenericActivatorComponent"@ {
        Some(64i32)
    }     else if name == "PropertyVendorComponent"@ {
        Some(65i32)
    }     else if name == "HFLightDirectionGadgetComponent"@ {
        Some(66i32)
    }     else if name == "RocketLaunchComponent"@ {
        Some(67i32)
    }     else if name == "RocketLandingComponent"@ {
        Some(68i32)
    }     else if name == "TriggerComponent"@ {
        Some(69i32)
    }     else if name == "DroppedLootComponent"@ {
        Some(70i32)
    }     else if name == "RacingControlComponent"@ {
        Some(71i32)
    }     else if name == "FactionTriggerComponent"@ {
        Some(72i32)
    }     else if name == "MissionNPCComponent"@ {
        Some(73i32)
    }     else if name == "RacingStatsComponent"@ {
        Some(74i32)
    }     else if name == "LUPExhibitComponent"@ {
        Some(75i32)
    }     else if name == "BBBComponent"@ {
        Some(76i32)
    }     else if name == "SoundTriggerComponent"@ {
        Some(77i32)
    }     else if name == "ProximityMonitorComponent"@ {
        Some(78i32)
    }     else if name == "RacingSoundTriggerComponent"@ {
        Some(79i32)
    }     else if name == "ChatComponent"@ {
        Some(80i32)
    }     else if name == "FriendsListComponent"@ {
        Some(81i32)
    }     else if name == "GuildComponent"@ {
        Some(82i32)
    }     else if name == "LocalSystemComponent"@ {
        Some(83i32)
    }     else if name == "MissionComponent"@ {
        Some(84i32)
    }     else if name == "MutableModelBehaviorsComponent"@ {
        Some(85i32)
    }     else if name == "PathfindingControlComponent"@ {
        Some(86i32)
    }     else if name == "PetTamingControlComponent"@ {
        Some(87i32)
    }     else if name == "PropertyEditorComponent"@ {
        Some(88i32)
    }     else if name == "SkinnedRenderComponent"@ {
        Some(89i32)
    }     else if name == "SlashCommandComponent"@ {
        Some(90i32)
    }     else if name == "StatusEffectComponent"@ {
        Some(91i32)
    }     else if name == "TeamsComponent"@ {
        Some(92i32)
    }     else if name == "TextEffectComponent"@ {
        Some(93i32)
    }     else if name == "TradeComponent"@ {
        Some(94i32)
    }     else if name == "UserControlComponent"@ {
        Some(95i32)
    }     else if name == "IgnoreListComponent"@ {
        Some(96i32)
    }     else if name == "LUPLaunchpadComponent"@ {
        Some(97i32)
    }     else if name == "InteractionManagerComponent"@ {
        Some(98i32)
    }     else if name == "DonationVendorComponent"@ {
        Some(100i32)
    }     else if name == "CombatMediatorComponent"@ {
        Some(101i32)
    }     else if name == "Component107"@ {
        Some(107i32)
    }     else if name == "Possesable"@ {
        Some(108i32)
    } else {
        None
    }
}

/// Whether `name` reads `literal`.
fn reads(name: &Vec<char>, literal: &str) -> (same: bool)
    ensures
        same == (name@ == literal@),
{
    let other = chars_of(literal);
    if name.len() != other.len() {
        return false;
    }
    let same = matches_at(name, &other, 0);
    proof {
        assert(name@.subrange(0, name@.len() as int) == name@);
    }
    same
}

fn lookup_component(name: &Vec<char>) -> (code: Option<i32>)
    ensures
        code == component_code(name@),
{
    if reads(name, "ControllablePhysicsComponent") {
        return Some(1);
    }
    if reads(name, "RenderComponent") {
        return Some(2);
    }
    if reads(name, "SimplePhysicsComponent") {
        return Some(3);
    }
    if reads(name, "CharacterComponent") {
        return Some(4);
    }
    if reads(name, "ScriptComponent") {
        return Some(5);
    }
    if reads(name, "BouncerComponent") {
        return Some(6);
    }
    if reads(name, "DestructibleComponent") {
        return Some(7);
    }
    if reads(name, "GhostComponent") {
        return Some(8);
    }
    if reads(name, "SkillComponent") {
        return Some(9);
    }
    if reads(name, "SpawnerComponent") {
        return Some(10);
    }
    if reads(name, "ItemComponent") {
        return Some(11);
    }
    if reads(name, "RebuildComponent") {
        return Some(12);
    }
    if reads(name, "RebuildStartComponent") {
        return Some(13);
    }
    if reads(name, "RebuildActivatorComponent") {
        return Some(14);
    }
    if reads(name, "IconOnlyComponent") {
        return Some(15);
    }
    if reads(name, "VendorComponent") {
        return Some(16);
    }
    if reads(name, "InventoryComponent") {
        return Some(17);
    }
    if reads(name, "ProjectilePhysicsComponent") {
        return Some(18);
    }
    if reads(name, "ShootingGalleryComponent") {
        return Some(19);
    }
    if reads(name, "RigidBodyPhantomPhysicsComponent") {
        return Some(20);
    }
    if reads(name, "DropEffectComponent") {
        return Some(21);
    }
    if reads(name, "ChestComponent") {
        return Some(22);
    }
    if reads(name, "CollectibleComponent") {
        return Some(23);
    }
    if reads(name, "BlueprintComponent") {
        return Some(24);
    }
    if reads(name, "MovingPlatformComponent") {
        return Some(25);
    }
    if reads(name, "PetComponent") {
        return Some(26);
    }
    if reads(name, "PlatformBoundaryComponent") {
        return Some(27);
    }
    if reads(name, "ModuleComponent") {
        return Some(28);
    }
    if reads(name, "ArcadeComponent") {
        return Some(29);
    }
    if reads(name, "VehiclePhysicsComponent") {
        return Some(30);
    }
    if reads(name, "MovementAIComponent") {
        return Some(31);
    }
    if reads(name, "ExhibitComponent") {
        return Some(32);
    }
    if reads(name, "OverheadIconComponent") {
        return Some(33);
    }
    if reads(name, "PetControlComponent") {
        return Some(34);
    }
    if reads(name, "MinifigComponent") {
        return Some(35);
    }
    if reads(name, "PropertyComponent") {
        return Some(36);
    }
    if reads(name, "PetCreatorComponent") {
        return Some(37);
    }
    if reads(name, "ModelBuilderComponent") {
        return Some(38);
    }
    if reads(name, "ScriptedActivityComponent") {
        return Some(39);
    }
    if reads(name, "PhantomPhysicsComponent") {
        return Some(40);
    }
    if reads(name, "SpringpadComponent") {
        return Some(41);
    }
    if reads(name, "B3BehaviorsComponent") {
        return Some(42);
    }
    if reads(name, "PropertyEntranceComponent") {
        return Some(43);
    }
    if reads(name, "FXComponent") {
        return Some(44);
    }
    if reads(name, "PropertyManagementComponent") {
        return Some(45);
    }
    if reads(name, "SecondVehiclePhysicsComponent") {
        return Some(46);
    }
    if reads(name, "PhysicsSystemComponent") {
        return Some(47);
    }
    if reads(name, "QuickBuildComponent") {
        return Some(48);
    }
    if reads(name, "SwitchComponent") {
        return Some(49);
    }
    if reads(name, "MinigameComponent") {
        return Some(50);
    }
    if reads(name, "ChanglingComponent") {
        return Some(51);
    }
    if reads(name, "ChoiceBuildComponent") {
        return Some(52);
    }
    if reads(name, "PackageComponent") {
        return Some(53);
    }
    if reads(name, "SoundRepeaterComponent") {
        return Some(54);
    }
    if reads(name, "SoundAmbient2DComponent") {
        return Some(55);
    }
    if reads(name, "SoundAmbient3DComponent") {
        return Some(56);
    }
    if reads(name, "PreconditionComponent") {
        return Some(57);
    }
    if reads(name, "PlayerFlagsComponent") {
        return Some(58);
    }
    if reads(name, "CustomBuildAssemblyComponent") {
        return Some(59);
    }
    if reads(name, "BaseCombatAIComponent") {
        return Some(60);
    }
    if reads(name, "ModuleAssemblyComponent") {
        return Some(61);
    }
    if reads(name, "ShowcaseModelHandlerComponent") {
        return Some(62);
    }
    if reads(name, "RacingModuleComponent") {
        return Some(63);
    }
    if reads(name, "GenericActivatorComponent") {
        return Some(64);
    }
    if reads(name, "PropertyVendorComponent") {
        return Some(65);
    }
    if reads(name, "HFLightDirectionGadgetComponent") {
        return Some(66);
    }
    if reads(name, "RocketLaunchComponent") {
        return Some(67);
    }
    if reads(name, "RocketLandingComponent") {
        return Some(68);
    }
    if reads(name, "TriggerComponent") {
        return Some(69);
    }
    if reads(name, "DroppedLootComponent") {
        return Some(70);
    }
    if reads(name, "RacingControlComponent") {
        return Some(71);
    }
    if reads(name, "FactionTriggerComponent") {
        return Some(72);
    }
    if reads(name, "MissionNPCComponent") {
        return Some(73);
    }
    if reads(name, "RacingStatsComponent") {
        return Some(74);
    }
    if reads(name, "LUPExhibitComponent") {
        return Some(75);
    }
    if reads(name, "BBBComponent") {
        return Some(76);
    }
    if reads(name, "SoundTriggerComponent") {
        return Some(77);
    }
    if reads(name, "ProximityMonitorComponent") {
        return Some(78);
    }
    if reads(name, "RacingSoundTriggerComponent") {
        return Some(79);
    }
    if reads(name, "ChatComponent") {
        return Some(80);
    }
    if reads(name, "FriendsListComponent") {
        return Some(81);
    }
    if reads(name, "GuildComponent") {
        return Some(82);
    }
    if reads(name, "LocalSystemComponent") {
        return Some(83);
    }
    if reads(name, "MissionComponent") {
        return Some(84);
    }
    if reads(name, "MutableModelBehaviorsComponent") {
        return Some(85);
    }
    if reads(name, "PathfindingControlComponent") {
        return Some(86);
    }
    if reads(name, "PetTamingControlComponent") {
        return Some(87);
    }
    if reads(name, "PropertyEditorComponent") {
        return Some(88);
    }
    if reads(name, "SkinnedRenderComponent") {
        return Some(89);
    }
    if reads(name, "SlashCommandComponent") {
        return Some(90);
    }
    if reads(name, "StatusEffectComponent") {
        return Some(91);
    }
    if reads(name, "TeamsComponent") {
        return Some(92);
    }
    if reads(name, "TextEffectComponent") {
        return Some(93);
    }
    if reads(name, "TradeComponent") {
        return Some(94);
    }
    if reads(name, "UserControlComponent") {
        return Some(95);
    }
    if reads(name, "IgnoreListComponent") {
        return Some(96);
    }
    if reads(name, "LUPLaunchpadComponent") {
        return Some(97);
    }
    if reads(name, "InteractionManagerComponent") {
        return Some(98);
    }
    if reads(name, "DonationVendorComponent") {
        return Some(100);
    }
    if reads(name, "CombatMediatorComponent") {
        return Some(101);
    }
    if reads(name, "Component107") {
        return Some(107);
    }
    if reads(name, "Possesable") {
        return Some(108);
    }
    None
}

/// The code of the component type called `name`; a name outside the table is
/// refused.
pub fn component_name_to_id(name: &str) -> (id: Result<i32, ModError>)
    ensures
        match component_code(name@) {
            Some(code) => id == Ok::<i32, ModError>(code),
            None => id matches Err(e) && e@ == ModErrorView::UnknownComponent(name@),
        },
{
    let chars = chars_of(name);
    match lookup_component(&chars) {
        Some(code) => Ok(code),
        None => Err(ModError::UnknownComponent(String::from_str(name))),
    }
}

/// The table that a mod of kind `name` targets: `Objects` for the three kinds
/// of object, `Missions` for a mission, `PhysicsComponent` for every kind of
/// physics component, and for any other kind the table of that name.
pub open spec fn target_table(name: Seq<char>) -> Seq<char> {
    if name == "npc"@ || name == "item"@ || name == "object"@ {
        "Objects"@
    } else if name == "mission"@ {
        "Missions"@
    } else if "PhysicsComponent"@.is_suffix_of(name) {
        "PhysicsComponent"@
    } else {
        name
    }
}

pub fn mod_type_to_table_name(name: &str) -> (table: String)
    ensures
        table@ == target_table(name@),
{
    if same_text(name, "npc") || same_text(name, "item") || same_text(name, "object") {
        String::from_str("Objects")
    } else if same_text(name, "mission") {
        String::from_str("Missions")
    } else if finishes_with(name, "PhysicsComponent") {
        String::from_str("PhysicsComponent")
    } else {
        String::from_str(name)
    }
}

} // verus!
