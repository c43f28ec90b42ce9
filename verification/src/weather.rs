//! The weather widget: a window whose updater refreshes a horizontally
//! scrolling text marquee on its own schedule.

use vstd::prelude::*;
use vstd::string::StringExecFns;
use crate::geometry::{PixelRect, Vec2f};
use crate::state_cell::DynamicOptional;
use crate::texture::{
    Color, FontInfo, ScrollBehavior, TextDisplayInfo, TextureCreationInfo, info_equiv,
};
use crate::update_rate::UpdateRate;
use crate::window_tree::{UpdateDecision, UpdaterEntry, Window, WindowContents, WindowUpdater};

verus! {

/// Cross-node data every updater can read: the display font, and the
/// description used whenever a texture cannot be created.
pub struct SharedWindowState {
    pub font_info: FontInfo,
    pub fallback_texture_creation_info: TextureCreationInfo,
}

/// The weather window's own state.
pub struct WeatherWindowState {
    pub api_key: String,
    pub location: String,
}

/// The weather marquee loops once every three seconds.
pub const WEATHER_SCROLL_PERIOD_MILLIS: u32 = 3000;

/// What the weather updater decides each time it is due: synthesize the
/// weather text in the shared font, colored black, scrolling in a three
/// second loop, sized to the window's resolved rectangle; fall back to the
/// shared fallback description if synthesis fails.
pub fn weather_updater_fn(font: &FontInfo, fallback: &TextureCreationInfo, area_drawn_to_screen: PixelRect)
    -> (d: UpdateDecision)
    ensures
        d matches UpdateDecision::SetTexture { desired, fallback: fb } && {
            &&& desired matches TextureCreationInfo::Text(f, tdi) && {
                &&& f.path@ == font.path@
                &&& f.style == font.style
                &&& f.hinting == font.hinting
                &&& tdi.text@ == "Rain (32f). So cold. "@
                &&& tdi.color == (Color { r: 0, g: 0, b: 0, a: 255 })
                &&& tdi.scroll == (ScrollBehavior::LoopEvery {
                    period_millis: WEATHER_SCROLL_PERIOD_MILLIS,
                })
                &&& tdi.max_pixel_width == area_drawn_to_screen.w
                &&& tdi.pixel_height == area_drawn_to_screen.h
            }
            &&& fb matches Some(f) && info_equiv(f, *fallback)
        },
{
    let weather_string = "Rain (32f). So cold. ";
    let weather_text_color = Color::rgb(0, 0, 0);
    let texture_creation_info = TextureCreationInfo::Text(
        font.clone_info(),
        TextDisplayInfo {
            text: String::from_str(weather_string),
            color: weather_text_color,
            scroll: ScrollBehavior::LoopEvery { period_millis: WEATHER_SCROLL_PERIOD_MILLIS },
            max_pixel_width: area_drawn_to_screen.w,
            pixel_height: area_drawn_to_screen.h,
        },
    );
    UpdateDecision::SetTexture {
        desired: texture_creation_info,
        fallback: Some(fallback.clone_info()),
    }
}

/// The weather window's updater: reads the shared font and fallback and asks
/// for a fresh marquee; fails (aborting the frame) only when the shared state
/// cell was never filled, a wiring bug.
pub struct WeatherUpdater;

impl WindowUpdater for WeatherUpdater {
    type NodeState = WeatherWindowState;

    type Shared = SharedWindowState;

    fn update(
        &mut self,
        contents: &WindowContents,
        state: &mut DynamicOptional<WeatherWindowState>,
        shared: &DynamicOptional<SharedWindowState>,
        area_drawn_to_screen: PixelRect,
    ) -> Result<UpdateDecision, String> {
        if !shared.has_inner_value() {
            return Err(String::from_str("the shared window state cell is empty"));
        }
        let inner = shared.get_inner_value();
        Ok(
            weather_updater_fn(
                &inner.font_info,
                &inner.fallback_texture_creation_info,
                area_drawn_to_screen,
            ),
        )
    }
}

/// The weather window: magenta placeholder contents under a red border in the
/// top-left fifth of its parent, refreshed on the given schedule, its state
/// carrying the weather service key and the queried location
/// "city,state,country" (the state code may be empty).
pub fn make_weather_window(
    update_rate: UpdateRate,
    api_key: &str,
    city_name: &str,
    state_code: &str,
    country_code: &str,
) -> (w: Window<WeatherUpdater>)
    requires
        update_rate.wf(),
    ensures
        w.spec_updater_rate() == Some(update_rate),
        w.spec_contents() == WindowContents::Color(Color { r: 255, g: 0, b: 255, a: 255 }),
        w.spec_border_color() == Some(Color { r: 255, g: 0, b: 0, a: 255 }),
        w.spec_top_left().spec_x() == 0 && w.spec_top_left().spec_y() == 0,
        w.spec_size().spec_x() == 200_000 && w.spec_size().spec_y() == 200_000,
        w.spec_children().len() == 0,
        w.spec_state()@ matches Some(state) && state.api_key@ == api_key@ && state.location@
            == city_name@ + ","@ + state_code@ + ","@ + country_code@,
        w.geometry_valid(),
        forall|pool_len: int| w.handles_valid(pool_len),
{
    let mut location = String::from_str(city_name);
    location.append(",");
    location.append(state_code);
    location.append(",");
    location.append(country_code);
    let w = Window::new(
        Some(UpdaterEntry { updater: WeatherUpdater, rate: update_rate }),
        DynamicOptional::new(
            WeatherWindowState { api_key: String::from_str(api_key), location },
        ),
        WindowContents::Color(Color::rgb(255, 0, 255)),
        Some(Color::rgb(255, 0, 0)),
        Vec2f::zero(),
        Vec2f::new(200_000, 200_000),
        None,
    );
    proof {
        assert forall|pool_len: int| w.handles_valid(pool_len) by {
            assert(w.spec_children().len() == 0);
        }
    }
    w
}

} // verus!
