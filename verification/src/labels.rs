use vstd::prelude::*;

use crate::config::{LandscapeMode, Language, SkyOrientation};

verus! {

/// The mouse hint at the bottom of the sky view.
pub open spec fn mouse_hint(language: Language, compact: bool) -> Seq<char> {
    match (language, compact) {
        (Language::Zh, true) => "鼠标: 左搜索 · 中切换 · 右设置"@,
        (Language::Zh, false) => "鼠标: 左搜索 · 中切换视图 · 右设置"@,
        (Language::En, _) => "mouse: left search · center flip · right settings"@,
    }
}

/// The mouse hint line of the footer.
pub fn footer_mouse_line(language: Language, compact: bool) -> (r: &'static str)
    ensures
        r@ == mouse_hint(language, compact),
{
    match (language, compact) {
        (Language::Zh, true) => "鼠标: 左搜索 · 中切换 · 右设置",
        (Language::Zh, false) => "鼠标: 左搜索 · 中切换视图 · 右设置",
        (Language::En, true) => "mouse: left search · center flip · right settings",
        (Language::En, false) => "mouse: left search · center flip · right settings",
    }
}

pub open spec fn landscape_text(language: Language, mode: LandscapeMode) -> Seq<char> {
    match (language, mode) {
        (Language::Zh, LandscapeMode::Off) => "关"@,
        (Language::Zh, LandscapeMode::Horizon) => "地表环"@,
        (Language::Zh, LandscapeMode::Bearings) => "方位"@,
        (_, LandscapeMode::Off) => "off"@,
        (_, LandscapeMode::Horizon) => "ground ring"@,
        (_, LandscapeMode::Bearings) => "bearings"@,
    }
}

/// How the settings panel names a landscape mode.
pub fn landscape_label(language: Language, mode: LandscapeMode) -> (r: &'static str)
    ensures
        r@ == landscape_text(language, mode),
{
    match (language, mode) {
        (Language::Zh, LandscapeMode::Off) => "关",
        (Language::Zh, LandscapeMode::Horizon) => "地表环",
        (Language::Zh, LandscapeMode::Bearings) => "方位",
        (_, LandscapeMode::Off) => "off",
        (_, LandscapeMode::Horizon) => "ground ring",
        (_, LandscapeMode::Bearings) => "bearings",
    }
}

pub open spec fn orientation_text(language: Language, orientation: SkyOrientation) -> Seq<char> {
    match (language, orientation) {
        (Language::Zh, SkyOrientation::Observer) => "仰望"@,
        (Language::Zh, SkyOrientation::MapStyle) => "地图"@,
        (_, SkyOrientation::Observer) => "observer"@,
        (_, SkyOrientation::MapStyle) => "map"@,
    }
}

/// How the settings panel names a sky orientation.
pub fn sky_orientation_label(language: Language, orientation: SkyOrientation) -> (r: &'static str)
    ensures
        r@ == orientation_text(language, orientation),
{
    match (language, orientation) {
        (Language::Zh, SkyOrientation::Observer) => "仰望",
        (Language::Zh, SkyOrientation::MapStyle) => "地图",
        (_, SkyOrientation::Observer) => "observer",
        (_, SkyOrientation::MapStyle) => "map",
    }
}

/// How dark the sky is, by the altitude of the sun.
#[derive(Debug, Clone, Copy, PartialEq, Eq, Structural)]
pub enum SkyLight {
    Day,
    CivilTwilight,
    NauticalTwilight,
    AstronomicalTwilight,
    Night,
}

pub open spec fn skylight_en(l: SkyLight) -> Seq<char> {
    match l {
        SkyLight::Day => "Daylight"@,
        SkyLight::CivilTwilight => "Civil twilight"@,
        SkyLight::NauticalTwilight => "Nautical twilight"@,
        SkyLight::AstronomicalTwilight => "Astronomical twilight"@,
        SkyLight::Night => "Night"@,
    }
}

pub open spec fn skylight_zh(l: SkyLight) -> Seq<char> {
    match l {
        SkyLight::Day => "白昼"@,
        SkyLight::CivilTwilight => "民用曙暮光"@,
        SkyLight::NauticalTwilight => "航海曙暮光"@,
        SkyLight::AstronomicalTwilight => "天文曙暮光"@,
        SkyLight::Night => "夜晚"@,
    }
}

impl SkyLight {
    /// English name of the sky light.
    pub fn name_en(self) -> (r: &'static str)
        ensures
            r@ == skylight_en(self),
    {
        match self {
            SkyLight::Day => "Daylight",
            SkyLight::CivilTwilight => "Civil twilight",
            SkyLight::NauticalTwilight => "Nautical twilight",
            SkyLight::AstronomicalTwilight => "Astronomical twilight",
            SkyLight::Night => "Night",
        }
    }

    /// Chinese name of the sky light.
    pub fn name_zh(self) -> (r: &'static str)
        ensures
            r@ == skylight_zh(self),
    {
        match self {
            SkyLight::Day => "白昼",
            SkyLight::CivilTwilight => "民用曙暮光",
            SkyLight::NauticalTwilight => "航海曙暮光",
            SkyLight::AstronomicalTwilight => "天文曙暮光",
            SkyLight::Night => "夜晚",
        }
    }
}

} // verus!
