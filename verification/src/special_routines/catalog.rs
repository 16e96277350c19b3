//! The special routines scripts may name, and the check of a pack's routine list.
use vstd::prelude::*;
use crate::ordered::TextSet;
use crate::special_routines::checks::concat_issues;
use crate::special_routines::errors::SpecialRoutineError;
use crate::special_routines::tokens::is_exact_nonempty_special_token;
use crate::text::{copy_text, is_blank, is_blank_text, is_exact_token, text_eq};

verus! {
pub open spec fn executable_names_0(r: Seq<char>) -> bool {
    r == "WarpToSpawnPoint"@
        || r == "HealParty"@
        || r == "FadeOutMusic"@
        || r == "WaitSFX"@
        || r == "PlayMapMusic"@
        || r == "RestartMapMusic"@
        || r == "PlayCurMonCry"@
        || r == "PlaySlowCry"@
        || r == "GameboyCheck"@
        || r == "CheckMobileAdapterStatusSpecial"@
        || r == "GetFirstPokemonHappiness"@
        || r == "CheckFirstMonIsEgg"@
        || r == "FindPartyMonThatSpecies"@
        || r == "FindPartyMonThatSpeciesYourTrainerID"@
        || r == "FindPartyMonAboveLevel"@
        || r == "FindPartyMonAtLeastThatHappy"@
        || r == "MonCheck"@
        || r == "BeastsCheck"@
        || r == "GameCornerPrizeMonCheckDex"@
        || r == "UnusedSetSeenMon"@
        || r == "ActivateFishingSwarm"@
        || r == "CheckCaughtCelebi"@
        || r == "SetPlayerPalette"@
        || r == "SnorlaxAwake"@
}

fn is_executable_names_0(routine: &str) -> (b: bool)
    ensures
        b == executable_names_0(routine@),
{
    if text_eq(routine, "WarpToSpawnPoint") {
        return true;
    }
    if text_eq(routine, "HealParty") {
        return true;
    }
    if text_eq(routine, "FadeOutMusic") {
        return true;
    }
    if text_eq(routine, "WaitSFX") {
        return true;
    }
    if text_eq(routine, "PlayMapMusic") {
        return true;
    }
    if text_eq(routine, "RestartMapMusic") {
        return true;
    }
    if text_eq(routine, "PlayCurMonCry") {
        return true;
    }
    if text_eq(routine, "PlaySlowCry") {
        return true;
    }
    if text_eq(routine, "GameboyCheck") {
        return true;
    }
    if text_eq(routine, "CheckMobileAdapterStatusSpecial") {
        return true;
    }
    if text_eq(routine, "GetFirstPokemonHappiness") {
        return true;
    }
    if text_eq(routine, "CheckFirstMonIsEgg") {
        return true;
    }
    if text_eq(routine, "FindPartyMonThatSpecies") {
        return true;
    }
    if text_eq(routine, "FindPartyMonThatSpeciesYourTrainerID") {
        return true;
    }
    if text_eq(routine, "FindPartyMonAboveLevel") {
        return true;
    }
    if text_eq(routine, "FindPartyMonAtLeastThatHappy") {
        return true;
    }
    if text_eq(routine, "MonCheck") {
        return true;
    }
    if text_eq(routine, "BeastsCheck") {
        return true;
    }
    if text_eq(routine, "GameCornerPrizeMonCheckDex") {
        return true;
    }
    if text_eq(routine, "UnusedSetSeenMon") {
        return true;
    }
    if text_eq(routine, "ActivateFishingSwarm") {
        return true;
    }
    if text_eq(routine, "CheckCaughtCelebi") {
        return true;
    }
    if text_eq(routine, "SetPlayerPalette") {
        return true;
    }
    if text_eq(routine, "SnorlaxAwake") {
        return true;
    }
    false
}

pub open spec fn executable_names_1(r: Seq<char>) -> bool {
    r == "SetDayOfWeek"@
        || r == "InitialSetDSTFlag"@
        || r == "InitialClearDSTFlag"@
        || r == "UpdateTime"@
        || r == "UnusedCheckUnusedTwoDayTimer"@
        || r == "SampleKenjiBreakCountdown"@
        || r == "CheckLuckyNumberShowFlag"@
        || r == "ResetLuckyNumberShowFlag"@
        || r == "CheckForLuckyNumberWinners"@
        || r == "PlaceMoneyTopRight"@
        || r == "DisplayMoneyAndCoinBalance"@
        || r == "DisplayCoinCaseBalance"@
        || r == "PrintTodaysLuckyNumber"@
        || r == "GSHealings"@
        || r == "StubbedTrainerRankings_Healings"@
        || r == "Reset"@
        || r == "HoOhChamber"@
        || r == "ClearBGPalettesBufferScreen"@
        || r == "ClearBGPalettes"@
        || r == "UpdateTimePals"@
        || r == "ClearTilemap"@
        || r == "LoadMapPalettes"@
        || r == "RefreshSprites"@
        || r == "UpdateSprites"@
}

fn is_executable_names_1(routine: &str) -> (b: bool)
    ensures
        b == executable_names_1(routine@),
{
    if text_eq(routine, "SetDayOfWeek") {
        return true;
    }
    if text_eq(routine, "InitialSetDSTFlag") {
        return true;
    }
    if text_eq(routine, "InitialClearDSTFlag") {
        return true;
    }
    if text_eq(routine, "UpdateTime") {
        return true;
    }
    if text_eq(routine, "UnusedCheckUnusedTwoDayTimer") {
        return true;
    }
    if text_eq(routine, "SampleKenjiBreakCountdown") {
        return true;
    }
    if text_eq(routine, "CheckLuckyNumberShowFlag") {
        return true;
    }
    if text_eq(routine, "ResetLuckyNumberShowFlag") {
        return true;
    }
    if text_eq(routine, "CheckForLuckyNumberWinners") {
        return true;
    }
    if text_eq(routine, "PlaceMoneyTopRight") {
        return true;
    }
    if text_eq(routine, "DisplayMoneyAndCoinBalance") {
        return true;
    }
    if text_eq(routine, "DisplayCoinCaseBalance") {
        return true;
    }
    if text_eq(routine, "PrintTodaysLuckyNumber") {
        return true;
    }
    if text_eq(routine, "GSHealings") {
        return true;
    }
    if text_eq(routine, "StubbedTrainerRankings_Healings") {
        return true;
    }
    if text_eq(routine, "Reset") {
        return true;
    }
    if text_eq(routine, "HoOhChamber") {
        return true;
    }
    if text_eq(routine, "ClearBGPalettesBufferScreen") {
        return true;
    }
    if text_eq(routine, "ClearBGPalettes") {
        return true;
    }
    if text_eq(routine, "UpdateTimePals") {
        return true;
    }
    if text_eq(routine, "ClearTilemap") {
        return true;
    }
    if text_eq(routine, "LoadMapPalettes") {
        return true;
    }
    if text_eq(routine, "RefreshSprites") {
        return true;
    }
    if text_eq(routine, "UpdateSprites") {
        return true;
    }
    false
}

pub open spec fn executable_names_2(r: Seq<char>) -> bool {
    r == "ReloadSpritesNoPalettes"@
        || r == "FadeOutToWhite"@
        || r == "FadeInFromWhite"@
        || r == "FadeOutToBlack"@
        || r == "FadeInFromBlack"@
        || r == "PokemonCenterPC"@
        || r == "PlayersHousePC"@
        || r == "ProfOaksPCBoot"@
        || r == "OverworldTownMap"@
        || r == "UnownPrinter"@
        || r == "MapRadio"@
        || r == "NameRival"@
        || r == "MoveDeletion"@
        || r == "BattleTowerFade"@
        || r == "UpdatePlayerSprite"@
        || r == "HealMachineAnim"@
        || r == "SurfStartStep"@
        || r == "LoadUsedSpritesGFX"@
        || r == "ToggleMaptileDecorations"@
        || r == "ToggleDecorationsVisibility"@
        || r == "MagnetTrain"@
        || r == "Diploma"@
        || r == "PrintDiploma"@
        || r == "UnownPuzzle"@
}

fn is_executable_names_2(routine: &str) -> (b: bool)
    ensures
        b == executable_names_2(routine@),
{
    if text_eq(routine, "ReloadSpritesNoPalettes") {
        return true;
    }
    if text_eq(routine, "FadeOutToWhite") {
        return true;
    }
    if text_eq(routine, "FadeInFromWhite") {
        return true;
    }
    if text_eq(routine, "FadeOutToBlack") {
        return true;
    }
    if text_eq(routine, "FadeInFromBlack") {
        return true;
    }
    if text_eq(routine, "PokemonCenterPC") {
        return true;
    }
    if text_eq(routine, "PlayersHousePC") {
        return true;
    }
    if text_eq(routine, "ProfOaksPCBoot") {
        return true;
    }
    if text_eq(routine, "OverworldTownMap") {
        return true;
    }
    if text_eq(routine, "UnownPrinter") {
        return true;
    }
    if text_eq(routine, "MapRadio") {
        return true;
    }
    if text_eq(routine, "NameRival") {
        return true;
    }
    if text_eq(routine, "MoveDeletion") {
        return true;
    }
    if text_eq(routine, "BattleTowerFade") {
        return true;
    }
    if text_eq(routine, "UpdatePlayerSprite") {
        return true;
    }
    if text_eq(routine, "HealMachineAnim") {
        return true;
    }
    if text_eq(routine, "SurfStartStep") {
        return true;
    }
    if text_eq(routine, "LoadUsedSpritesGFX") {
        return true;
    }
    if text_eq(routine, "ToggleMaptileDecorations") {
        return true;
    }
    if text_eq(routine, "ToggleDecorationsVisibility") {
        return true;
    }
    if text_eq(routine, "MagnetTrain") {
        return true;
    }
    if text_eq(routine, "Diploma") {
        return true;
    }
    if text_eq(routine, "PrintDiploma") {
        return true;
    }
    if text_eq(routine, "UnownPuzzle") {
        return true;
    }
    false
}

pub open spec fn executable_names_3(r: Seq<char>) -> bool {
    r == "OmanyteChamber"@
        || r == "AerodactylChamber"@
        || r == "KabutoChamber"@
        || r == "DisplayUnownWords"@
        || r == "CheckPokerus"@
        || r == "OlderHaircutBrother"@
        || r == "YoungerHaircutBrother"@
        || r == "DaisysGrooming"@
        || r == "NameRater"@
        || r == "PokeSeer"@
        || r == "MoveTutor"@
        || r == "BankOfMom"@
        || r == "SlotMachine"@
        || r == "CardFlip"@
        || r == "UnusedMemoryGame"@
        || r == "MemoryGame"@
        || r == "DisplayLinkRecord"@
        || r == "TrainerHouse"@
        || r == "PhotoStudio"@
        || r == "GiveShuckle"@
        || r == "ReturnShuckie"@
        || r == "GiveDratini"@
        || r == "BillsGrandfather"@
        || r == "SelectApricornForKurt"@
}

fn is_executable_names_3(routine: &str) -> (b: bool)
    ensures
        b == executable_names_3(routine@),
{
    if text_eq(routine, "OmanyteChamber") {
        return true;
    }
    if text_eq(routine, "AerodactylChamber") {
        return true;
    }
    if text_eq(routine, "KabutoChamber") {
        return true;
    }
    if text_eq(routine, "DisplayUnownWords") {
        return true;
    }
    if text_eq(routine, "CheckPokerus") {
        return true;
    }
    if text_eq(routine, "OlderHaircutBrother") {
        return true;
    }
    if text_eq(routine, "YoungerHaircutBrother") {
        return true;
    }
    if text_eq(routine, "DaisysGrooming") {
        return true;
    }
    if text_eq(routine, "NameRater") {
        return true;
    }
    if text_eq(routine, "PokeSeer") {
        return true;
    }
    if text_eq(routine, "MoveTutor") {
        return true;
    }
    if text_eq(routine, "BankOfMom") {
        return true;
    }
    if text_eq(routine, "SlotMachine") {
        return true;
    }
    if text_eq(routine, "CardFlip") {
        return true;
    }
    if text_eq(routine, "UnusedMemoryGame") {
        return true;
    }
    if text_eq(routine, "MemoryGame") {
        return true;
    }
    if text_eq(routine, "DisplayLinkRecord") {
        return true;
    }
    if text_eq(routine, "TrainerHouse") {
        return true;
    }
    if text_eq(routine, "PhotoStudio") {
        return true;
    }
    if text_eq(routine, "GiveShuckle") {
        return true;
    }
    if text_eq(routine, "ReturnShuckie") {
        return true;
    }
    if text_eq(routine, "GiveDratini") {
        return true;
    }
    if text_eq(routine, "BillsGrandfather") {
        return true;
    }
    if text_eq(routine, "SelectApricornForKurt") {
        return true;
    }
    false
}

pub open spec fn executable_names_4(r: Seq<char>) -> bool {
    r == "InitRoamMons"@
        || r == "CheckMysteryGift"@
        || r == "GetMysteryGiftItem"@
        || r == "UnlockMysteryGift"@
        || r == "BuenasPassword"@
        || r == "BuenaPrize"@
        || r == "CelebiShrineEvent"@
        || r == "CheckMagikarpLength"@
        || r == "MagikarpHouseSign"@
        || r == "DayCareMan"@
        || r == "DayCareLady"@
        || r == "DayCareManOutside"@
        || r == "DayCareMon1"@
        || r == "DayCareMon2"@
        || r == "GiveParkBalls"@
        || r == "StartBugContestTimer"@
        || r == "CheckBugContestTimer"@
        || r == "SelectRandomBugContestContestants"@
        || r == "ContestDropOffMons"@
        || r == "ContestReturnMons"@
        || r == "CheckPartyFullAfterContest"@
        || r == "BugContestJudging"@
        || r == "SetBitsForLinkTradeRequest"@
        || r == "SetBitsForBattleRequest"@
}

fn is_executable_names_4(routine: &str) -> (b: bool)
    ensures
        b == executable_names_4(routine@),
{
    if text_eq(routine, "InitRoamMons") {
        return true;
    }
    if text_eq(routine, "CheckMysteryGift") {
        return true;
    }
    if text_eq(routine, "GetMysteryGiftItem") {
        return true;
    }
    if text_eq(routine, "UnlockMysteryGift") {
        return true;
    }
    if text_eq(routine, "BuenasPassword") {
        return true;
    }
    if text_eq(routine, "BuenaPrize") {
        return true;
    }
    if text_eq(routine, "CelebiShrineEvent") {
        return true;
    }
    if text_eq(routine, "CheckMagikarpLength") {
        return true;
    }
    if text_eq(routine, "MagikarpHouseSign") {
        return true;
    }
    if text_eq(routine, "DayCareMan") {
        return true;
    }
    if text_eq(routine, "DayCareLady") {
        return true;
    }
    if text_eq(routine, "DayCareManOutside") {
        return true;
    }
    if text_eq(routine, "DayCareMon1") {
        return true;
    }
    if text_eq(routine, "DayCareMon2") {
        return true;
    }
    if text_eq(routine, "GiveParkBalls") {
        return true;
    }
    if text_eq(routine, "StartBugContestTimer") {
        return true;
    }
    if text_eq(routine, "CheckBugContestTimer") {
        return true;
    }
    if text_eq(routine, "SelectRandomBugContestContestants") {
        return true;
    }
    if text_eq(routine, "ContestDropOffMons") {
        return true;
    }
    if text_eq(routine, "ContestReturnMons") {
        return true;
    }
    if text_eq(routine, "CheckPartyFullAfterContest") {
        return true;
    }
    if text_eq(routine, "BugContestJudging") {
        return true;
    }
    if text_eq(routine, "SetBitsForLinkTradeRequest") {
        return true;
    }
    if text_eq(routine, "SetBitsForBattleRequest") {
        return true;
    }
    false
}

pub open spec fn executable_names_5(r: Seq<char>) -> bool {
    r == "SetBitsForTimeCapsuleRequest"@
        || r == "WaitForLinkedFriend"@
        || r == "CheckLinkTimeout_Receptionist"@
        || r == "CheckLinkTimeoutReceptionist"@
        || r == "CheckBothSelectedSameRoom"@
        || r == "CloseLink"@
        || r == "WaitForOtherPlayerToExit"@
        || r == "FailedLinkToPast"@
        || r == "TradeCenter"@
        || r == "Colosseum"@
        || r == "EnterTimeCapsule"@
        || r == "TimeCapsule"@
        || r == "CheckTimeCapsuleCompatibility"@
        || r == "TryQuickSave"@
        || r == "AskMobileOrCable"@
        || r == "CableClubCheckWhichChris"@
        || r == "BattleTowerAction"@
        || r == "CheckForBattleTowerRules"@
        || r == "BattleTowerRoomMenu"@
        || r == "BattleTowerBattle"@
        || r == "Function170114"@
        || r == "Function1704e1"@
        || r == "BattleTowerMobileError"@
        || r == "LoadOpponentTrainerAndPokemonWithOTSprite"@
}

fn is_executable_names_5(routine: &str) -> (b: bool)
    ensures
        b == executable_names_5(routine@),
{
    if text_eq(routine, "SetBitsForTimeCapsuleRequest") {
        return true;
    }
    if text_eq(routine, "WaitForLinkedFriend") {
        return true;
    }
    if text_eq(routine, "CheckLinkTimeout_Receptionist") {
        return true;
    }
    if text_eq(routine, "CheckLinkTimeoutReceptionist") {
        return true;
    }
    if text_eq(routine, "CheckBothSelectedSameRoom") {
        return true;
    }
    if text_eq(routine, "CloseLink") {
        return true;
    }
    if text_eq(routine, "WaitForOtherPlayerToExit") {
        return true;
    }
    if text_eq(routine, "FailedLinkToPast") {
        return true;
    }
    if text_eq(routine, "TradeCenter") {
        return true;
    }
    if text_eq(routine, "Colosseum") {
        return true;
    }
    if text_eq(routine, "EnterTimeCapsule") {
        return true;
    }
    if text_eq(routine, "TimeCapsule") {
        return true;
    }
    if text_eq(routine, "CheckTimeCapsuleCompatibility") {
        return true;
    }
    if text_eq(routine, "TryQuickSave") {
        return true;
    }
    if text_eq(routine, "AskMobileOrCable") {
        return true;
    }
    if text_eq(routine, "CableClubCheckWhichChris") {
        return true;
    }
    if text_eq(routine, "BattleTowerAction") {
        return true;
    }
    if text_eq(routine, "CheckForBattleTowerRules") {
        return true;
    }
    if text_eq(routine, "BattleTowerRoomMenu") {
        return true;
    }
    if text_eq(routine, "BattleTowerBattle") {
        return true;
    }
    if text_eq(routine, "Function170114") {
        return true;
    }
    if text_eq(routine, "Function1704e1") {
        return true;
    }
    if text_eq(routine, "BattleTowerMobileError") {
        return true;
    }
    if text_eq(routine, "LoadOpponentTrainerAndPokemonWithOTSprite") {
        return true;
    }
    false
}

pub open spec fn executable_names_6(r: Seq<char>) -> bool {
    r == "AskRememberPassword"@
        || r == "Function1700ba"@
        || r == "Function1011f1"@
        || r == "Function101220"@
        || r == "Function101225"@
        || r == "Function101231"@
        || r == "Function103780"@
        || r == "Function1037c2"@
        || r == "Function1037eb"@
        || r == "Function10383c"@
        || r == "Function10387b"@
        || r == "Mobile_SelectThreeMons"@
        || r == "GiveOddEgg"@
        || r == "Menu_ChallengeExplanationCancel"@
        || r == "RandomUnseenWildMon"@
        || r == "RandomPhoneWildMon"@
        || r == "RandomPhoneMon"@
        || r == "UnusedDummySpecial"@
        || r == "UnusedBattleTowerDummySpecial1"@
        || r == "UnusedBattleTowerDummySpecial2"@
        || r == "UnusedFindItemInPCOrBag"@
        || r == "Function11ba38"@
}

fn is_executable_names_6(routine: &str) -> (b: bool)
    ensures
        b == executable_names_6(routine@),
{
    if text_eq(routine, "AskRememberPassword") {
        return true;
    }
    if text_eq(routine, "Function1700ba") {
        return true;
    }
    if text_eq(routine, "Function1011f1") {
        return true;
    }
    if text_eq(routine, "Function101220") {
        return true;
    }
    if text_eq(routine, "Function101225") {
        return true;
    }
    if text_eq(routine, "Function101231") {
        return true;
    }
    if text_eq(routine, "Function103780") {
        return true;
    }
    if text_eq(routine, "Function1037c2") {
        return true;
    }
    if text_eq(routine, "Function1037eb") {
        return true;
    }
    if text_eq(routine, "Function10383c") {
        return true;
    }
    if text_eq(routine, "Function10387b") {
        return true;
    }
    if text_eq(routine, "Mobile_SelectThreeMons") {
        return true;
    }
    if text_eq(routine, "GiveOddEgg") {
        return true;
    }
    if text_eq(routine, "Menu_ChallengeExplanationCancel") {
        return true;
    }
    if text_eq(routine, "RandomUnseenWildMon") {
        return true;
    }
    if text_eq(routine, "RandomPhoneWildMon") {
        return true;
    }
    if text_eq(routine, "RandomPhoneMon") {
        return true;
    }
    if text_eq(routine, "UnusedDummySpecial") {
        return true;
    }
    if text_eq(routine, "UnusedBattleTowerDummySpecial1") {
        return true;
    }
    if text_eq(routine, "UnusedBattleTowerDummySpecial2") {
        return true;
    }
    if text_eq(routine, "UnusedFindItemInPCOrBag") {
        return true;
    }
    if text_eq(routine, "Function11ba38") {
        return true;
    }
    false
}

/// The routines the engine carries out.
pub open spec fn executable_routine(r: Seq<char>) -> bool {
    executable_names_0(r)
        || executable_names_1(r)
        || executable_names_2(r)
        || executable_names_3(r)
        || executable_names_4(r)
        || executable_names_5(r)
        || executable_names_6(r)
}

fn is_executable_routine(routine: &str) -> (b: bool)
    ensures
        b == executable_routine(routine@),
{
    is_executable_names_0(routine) || is_executable_names_1(routine) || is_executable_names_2(routine) || is_executable_names_3(routine) || is_executable_names_4(routine) || is_executable_names_5(routine) || is_executable_names_6(routine)
}

pub open spec fn inactive_names_0(r: Seq<char>) -> bool {
    r == "Function11ac3e"@
        || r == "TradeCornerHoldMon"@
        || r == "Function11b5e8"@
        || r == "Function11b7e5"@
        || r == "Function11b879"@
        || r == "Function11b920"@
        || r == "Function11b93b"@
        || r == "Function11c1ab"@
        || r == "Function17d2b6"@
        || r == "Function17d2ce"@
        || r == "Function102142"@
}

fn is_inactive_names_0(routine: &str) -> (b: bool)
    ensures
        b == inactive_names_0(routine@),
{
    if text_eq(routine, "Function11ac3e") {
        return true;
    }
    if text_eq(routine, "TradeCornerHoldMon") {
        return true;
    }
    if text_eq(routine, "Function11b5e8") {
        return true;
    }
    if text_eq(routine, "Function11b7e5") {
        return true;
    }
    if text_eq(routine, "Function11b879") {
        return true;
    }
    if text_eq(routine, "Function11b920") {
        return true;
    }
    if text_eq(routine, "Function11b93b") {
        return true;
    }
    if text_eq(routine, "Function11c1ab") {
        return true;
    }
    if text_eq(routine, "Function17d2b6") {
        return true;
    }
    if text_eq(routine, "Function17d2ce") {
        return true;
    }
    if text_eq(routine, "Function102142") {
        return true;
    }
    false
}

/// The routines the game declares but the pack's scripts never reach.
pub open spec fn inactive_routine(r: Seq<char>) -> bool {
    inactive_names_0(r)
}

fn is_inactive_routine(routine: &str) -> (b: bool)
    ensures
        b == inactive_routine(routine@),
{
    is_inactive_names_0(routine)
}

/// A routine the engine knows: one it carries out, or one declared but inactive.
pub open spec fn known_routine(r: Seq<char>) -> bool {
    executable_routine(r) || inactive_routine(r)
}

/// Whether scripts may name `routine`.
pub fn is_known_special_routine(routine: &str) -> (b: bool)
    ensures
        b == known_routine(routine@),
{
    is_executable_routine(routine) || is_inactive_routine(routine)
}

/// The routines that draw from the random source, and so run only when one is given.
pub open spec fn divider_routine(r: Seq<char>) -> bool {
    r == "SampleKenjiBreakCountdown"@
        || r == "ResetLuckyNumberShowFlag"@
        || r == "RandomUnseenWildMon"@
        || r == "RandomPhoneWildMon"@
        || r == "RandomPhoneMon"@
        || r == "UnownPuzzle"@
        || r == "CardFlip"@
        || r == "SlotMachine"@
        || r == "UnusedMemoryGame"@
        || r == "MemoryGame"@
        || r == "DayCareMan"@
        || r == "DayCareLady"@
        || r == "DayCareManOutside"@
        || r == "GiveShuckle"@
        || r == "BuenasPassword"@
        || r == "SelectRandomBugContestContestants"@
        || r == "BugContestJudging"@
        || r == "BattleTowerAction"@
        || r == "LoadOpponentTrainerAndPokemonWithOTSprite"@
        || r == "GiveOddEgg"@
}

fn is_divider_routine(routine: &str) -> (b: bool)
    ensures
        b == divider_routine(routine@),
{
    if text_eq(routine, "SampleKenjiBreakCountdown") {
        return true;
    }
    if text_eq(routine, "ResetLuckyNumberShowFlag") {
        return true;
    }
    if text_eq(routine, "RandomUnseenWildMon") {
        return true;
    }
    if text_eq(routine, "RandomPhoneWildMon") {
        return true;
    }
    if text_eq(routine, "RandomPhoneMon") {
        return true;
    }
    if text_eq(routine, "UnownPuzzle") {
        return true;
    }
    if text_eq(routine, "CardFlip") {
        return true;
    }
    if text_eq(routine, "SlotMachine") {
        return true;
    }
    if text_eq(routine, "UnusedMemoryGame") {
        return true;
    }
    if text_eq(routine, "MemoryGame") {
        return true;
    }
    if text_eq(routine, "DayCareMan") {
        return true;
    }
    if text_eq(routine, "DayCareLady") {
        return true;
    }
    if text_eq(routine, "DayCareManOutside") {
        return true;
    }
    if text_eq(routine, "GiveShuckle") {
        return true;
    }
    if text_eq(routine, "BuenasPassword") {
        return true;
    }
    if text_eq(routine, "SelectRandomBugContestContestants") {
        return true;
    }
    if text_eq(routine, "BugContestJudging") {
        return true;
    }
    if text_eq(routine, "BattleTowerAction") {
        return true;
    }
    if text_eq(routine, "LoadOpponentTrainerAndPokemonWithOTSprite") {
        return true;
    }
    if text_eq(routine, "GiveOddEgg") {
        return true;
    }
    false
}

/// Why a routine is refused before it runs, when no random source is given: unknown to the
/// engine, declared but inactive, or in need of a random source (every routine that draws
/// from one except the Battle Tower action, which has a path that draws nothing).
pub open spec fn refusal_without_source(r: Seq<char>) -> Option<RoutineRefusal> {
    if executable_routine(r) {
        if divider_routine(r) && r != "BattleTowerAction"@ {
            Some(RoutineRefusal::MissingDividerSource)
        } else {
            None
        }
    } else if inactive_routine(r) {
        Some(RoutineRefusal::InactiveDeclaredRoutine)
    } else {
        Some(RoutineRefusal::UnsupportedRoutine)
    }
}

/// The kinds of refusal, as plain values.
pub enum RoutineRefusal {
    UnsupportedRoutine,
    InactiveDeclaredRoutine,
    MissingDividerSource,
}

/// The refusal an error stands for, naming `routine`, if it is one.
pub open spec fn refusal_of(e: SpecialRoutineError, routine: Seq<char>) -> Option<RoutineRefusal> {
    match e {
        SpecialRoutineError::UnsupportedRoutine { routine: r } => if r@ == routine {
            Some(RoutineRefusal::UnsupportedRoutine)
        } else {
            None
        },
        SpecialRoutineError::InactiveDeclaredRoutine { routine: r } => if r@ == routine {
            Some(RoutineRefusal::InactiveDeclaredRoutine)
        } else {
            None
        },
        SpecialRoutineError::MissingDividerSource { routine: r } => if r@ == routine {
            Some(RoutineRefusal::MissingDividerSource)
        } else {
            None
        },
        _ => None,
    }
}

/// The dispatcher's answer, before any state is read, to a routine named without a random
/// source: the refusal, or `None` for a routine it goes on to run.
pub fn special_routine_refusal(routine: &str) -> (r: Option<SpecialRoutineError>)
    ensures
        match r {
            None => refusal_without_source(routine@) is None,
            Some(e) => refusal_without_source(routine@) is Some && refusal_of(e, routine@) == refusal_without_source(
                routine@,
            ),
        },
{
    proof {
        reveal_strlit("BattleTowerAction");
    }
    if is_executable_routine(routine) {
        if is_divider_routine(routine) && !text_eq(routine, "BattleTowerAction") {
            Some(SpecialRoutineError::MissingDividerSource { routine: copy_text(routine) })
        } else {
            None
        }
    } else if is_inactive_routine(routine) {
        Some(SpecialRoutineError::InactiveDeclaredRoutine { routine: copy_text(routine) })
    } else {
        Some(SpecialRoutineError::UnsupportedRoutine { routine: copy_text(routine) })
    }
}

/// The dispatcher's answer, before any state is read, to a routine named with a random
/// source: only the routines that draw from it are run; any other is unsupported there.
pub fn random_special_routine_refusal(routine: &str) -> (r: Option<SpecialRoutineError>)
    ensures
        match r {
            None => divider_routine(routine@),
            Some(e) => !divider_routine(routine@) && refusal_of(e, routine@) == Some(RoutineRefusal::UnsupportedRoutine),
        },
{
    if is_divider_routine(routine) {
        None
    } else {
        Some(SpecialRoutineError::UnsupportedRoutine { routine: copy_text(routine) })
    }
}

/// A problem with a routine a pack names.
#[derive(Debug, PartialEq, Eq)]
pub enum SpecialRoutineCatalogIssue {
    EmptyRoutine { routine: String },
    InvalidRoutine { routine: String },
    UnknownRoutine { routine: String },
}

pub enum RoutineIssueView {
    EmptyRoutine { routine: Seq<char> },
    InvalidRoutine { routine: Seq<char> },
    UnknownRoutine { routine: Seq<char> },
}

impl View for SpecialRoutineCatalogIssue {
    type V = RoutineIssueView;

    open spec fn view(&self) -> RoutineIssueView {
        match self {
            SpecialRoutineCatalogIssue::EmptyRoutine { routine } => RoutineIssueView::EmptyRoutine { routine: routine@ },
            SpecialRoutineCatalogIssue::InvalidRoutine { routine } => RoutineIssueView::InvalidRoutine { routine: routine@ },
            SpecialRoutineCatalogIssue::UnknownRoutine { routine } => RoutineIssueView::UnknownRoutine { routine: routine@ },
        }
    }
}

pub open spec fn routine_issue_views(v: Seq<SpecialRoutineCatalogIssue>) -> Seq<RoutineIssueView> {
    v.map_values(|i: SpecialRoutineCatalogIssue| i@)
}

/// The issue of one named routine: blank, malformed, or unknown to the engine.
pub open spec fn routine_issue(r: Seq<char>) -> Seq<RoutineIssueView> {
    if is_blank(r) {
        seq![RoutineIssueView::EmptyRoutine { routine: r }]
    } else if !is_exact_token(r) {
        seq![RoutineIssueView::InvalidRoutine { routine: r }]
    } else if !known_routine(r) {
        seq![RoutineIssueView::UnknownRoutine { routine: r }]
    } else {
        seq![]
    }
}

pub open spec fn routine_checks(names: Seq<Seq<char>>) -> spec_fn(int) -> Seq<RoutineIssueView> {
    |i: int| routine_issue(names[i])
}

/// Every problem with the routines a pack names, in ascending order: blank, malformed, or
/// not a routine the engine knows.
pub fn special_routine_catalog_issues(routines: &TextSet) -> (issues: Vec<SpecialRoutineCatalogIssue>)
    ensures
        routine_issue_views(issues@) == concat_issues(routine_checks(routines.elements()), routines.elements().len() as int),
{
    let mut issues: Vec<SpecialRoutineCatalogIssue> = Vec::new();
    let ghost names = routines.elements();
    let ghost f = routine_checks(names);
    let n = routines.len();
    let mut i: usize = 0;
    while i < n
        invariant
            n == names.len(),
            names == routines.elements(),
            f == routine_checks(names),
            i <= n,
            routine_issue_views(issues@) == concat_issues(f, i as int),
        decreases n - i,
    {
        let ghost before = routine_issue_views(issues@);
        let r = routines.element_at(i);
        if is_blank_text(r.as_str()) {
            issues.push(SpecialRoutineCatalogIssue::EmptyRoutine { routine: copy_text(r.as_str()) });
        } else if !is_exact_nonempty_special_token(r.as_str()) {
            issues.push(SpecialRoutineCatalogIssue::InvalidRoutine { routine: copy_text(r.as_str()) });
        } else if !is_known_special_routine(r.as_str()) {
            issues.push(SpecialRoutineCatalogIssue::UnknownRoutine { routine: copy_text(r.as_str()) });
        }
        proof {
            assert(routine_issue_views(issues@) =~= before + f(i as int));
        }
        i += 1;
    }
    issues
}

} // verus!
