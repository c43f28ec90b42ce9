use kiosk_engine::geometry::{PixelRect, Vec2f};
use kiosk_engine::state_cell::DynamicOptional;
use kiosk_engine::texture::{
    Color, DrawCommand, FontInfo, PixelSize, TextureBackend, TextureCreationInfo, TexturePool,
};
use kiosk_engine::update_rate::{FrameCounter, UpdateRate};
use kiosk_engine::errors::{RenderError, TextureCreationError};
use kiosk_engine::texture::{FontHinting, FontStyle, ScrollBehavior, TextDisplayInfo};
use kiosk_engine::window_tree::{
    render, update_texture_contents, UpdateDecision, UpdaterEntry, Window, WindowContents,
    WindowUpdater,
};

/// An updater that never changes anything, for trees of static windows.
struct StaticUpdater;

impl WindowUpdater for StaticUpdater {
    type NodeState = ();
    type Shared = ();

    fn update(
        &mut self,
        _contents: &WindowContents,
        _state: &mut DynamicOptional<()>,
        _shared: &DynamicOptional<()>,
        _area: PixelRect,
    ) -> Result<UpdateDecision, String> {
        Ok(UpdateDecision::Keep)
    }
}

/// A backend for plain single-color testing: every resource is 8x8.
struct TinyBackend;

impl TextureBackend for TinyBackend {
    fn stage_from_path(&mut self, _path: &str) -> Result<PixelSize, String> {
        Ok(PixelSize { w: 8, h: 8 })
    }
    fn stage_from_url(&mut self, _url: &str) -> Result<PixelSize, String> {
        Ok(PixelSize { w: 8, h: 8 })
    }
    fn measure_text(&mut self, _f: &FontInfo, p: u16, t: &str) -> Result<PixelSize, String> {
        Ok(PixelSize { w: 10 * t.chars().count() as u32, h: p as u32 })
    }
    fn stage_text(
        &mut self,
        _f: &FontInfo,
        _p: u16,
        _t: &str,
        _c: Color,
        _s: PixelSize,
    ) -> Result<(), String> {
        Ok(())
    }
    fn commit_append(&mut self) {}
    fn commit_replace(&mut self, _index: usize) {}
}

fn color_window(
    color: Color,
    top_left: Vec2f,
    size: Vec2f,
    children: Option<Vec<Window<StaticUpdater>>>,
) -> Window<StaticUpdater> {
    Window::new(
        None,
        DynamicOptional::none(),
        WindowContents::Color(color),
        None,
        top_left,
        size,
        children,
    )
}

#[test]
fn root_with_centered_child_draws_child_at_quarter_offsets() {
    // root(0,0,1,1) with child(0.25,0.25,0.5,0.5, red) rendered into a
    // 400x400 output draws the child at pixel rectangle (100,100,200,200).
    let red = Color::rgb(255, 0, 0);
    let teal = Color::rgb(0, 128, 128);
    let child = color_window(red, Vec2f::new(250_000, 250_000), Vec2f::new(500_000, 500_000), None);
    let mut root = color_window(teal, Vec2f::zero(), Vec2f::one(), Some(vec![child]));

    let mut pool = TexturePool::new(PixelSize { w: 4096, h: 4096 });
    let mut backend = TinyBackend;
    let shared = DynamicOptional::none();
    let counter = FrameCounter::new();
    let output = PixelRect { x: 0, y: 0, w: 400, h: 400 };
    let mut commands = Vec::new();
    render(&mut root, &mut pool, &mut backend, &shared, counter, output, 0, &mut commands)
        .unwrap();
    assert_eq!(
        commands,
        vec![
            DrawCommand::FillRect { color: teal, rect: PixelRect { x: 0, y: 0, w: 400, h: 400 } },
            DrawCommand::FillRect { color: red, rect: PixelRect { x: 100, y: 100, w: 200, h: 200 } },
        ]
    );
}

#[test]
fn children_paint_in_stored_order_over_their_parent() {
    let a = Color::rgb(1, 1, 1);
    let b = Color::rgb(2, 2, 2);
    let parent_color = Color::rgb(9, 9, 9);
    let first = color_window(a, Vec2f::zero(), Vec2f::new_from_one(500_000), None);
    let second = color_window(b, Vec2f::zero(), Vec2f::new_from_one(500_000), None);
    let mut root = color_window(
        parent_color,
        Vec2f::zero(),
        Vec2f::one(),
        Some(vec![first, second]),
    );
    let mut pool = TexturePool::new(PixelSize { w: 64, h: 64 });
    let mut backend = TinyBackend;
    let shared = DynamicOptional::none();
    let output = PixelRect { x: 0, y: 0, w: 100, h: 100 };
    let mut commands = Vec::new();
    render(
        &mut root,
        &mut pool,
        &mut backend,
        &shared,
        FrameCounter::new(),
        output,
        0,
        &mut commands,
    )
    .unwrap();
    let colors: Vec<Color> = commands
        .iter()
        .map(|c| match c {
            DrawCommand::FillRect { color, .. } => *color,
            _ => panic!("expected fills only"),
        })
        .collect();
    assert_eq!(colors, vec![parent_color, a, b]);
}

#[test]
fn border_is_drawn_first_then_contents_over_the_interior() {
    let border = Color::rgb(10, 20, 30);
    let inner = Color::rgb(40, 50, 60);
    let mut root: Window<StaticUpdater> = Window::new(
        None,
        DynamicOptional::none(),
        WindowContents::Color(inner),
        Some(border),
        Vec2f::zero(),
        Vec2f::one(),
        None,
    );
    let mut pool = TexturePool::new(PixelSize { w: 64, h: 64 });
    let mut backend = TinyBackend;
    let shared = DynamicOptional::none();
    let output = PixelRect { x: 0, y: 0, w: 10, h: 10 };
    let mut commands = Vec::new();
    render(
        &mut root,
        &mut pool,
        &mut backend,
        &shared,
        FrameCounter::new(),
        output,
        0,
        &mut commands,
    )
    .unwrap();
    assert_eq!(
        commands,
        vec![
            DrawCommand::FillRect { color: border, rect: PixelRect { x: 0, y: 0, w: 10, h: 10 } },
            DrawCommand::FillRect { color: inner, rect: PixelRect { x: 1, y: 1, w: 8, h: 8 } },
        ]
    );
}

/// An updater that swaps the node's contents to a freshly made texture and
/// counts its invocations, to observe the scheduler.
struct CountingUpdater;

impl WindowUpdater for CountingUpdater {
    type NodeState = u32;
    type Shared = ();

    fn update(
        &mut self,
        _contents: &WindowContents,
        state: &mut DynamicOptional<u32>,
        _shared: &DynamicOptional<()>,
        _area: PixelRect,
    ) -> Result<UpdateDecision, String> {
        let count = *state.get_inner_value();
        state.set_inner_value(count + 1);
        Ok(UpdateDecision::SetTexture {
            desired: TextureCreationInfo::Path(String::from("assets/fresh.png")),
            fallback: None,
        })
    }
}

#[test]
fn updaters_run_exactly_when_due() {
    let rate = UpdateRate::from_seconds(50, 60).unwrap(); // every 3 frames
    let mut window: Window<CountingUpdater> = Window::new(
        Some(UpdaterEntry { updater: CountingUpdater, rate }),
        DynamicOptional::new(0u32),
        WindowContents::Color(Color::rgb(0, 0, 0)),
        None,
        Vec2f::zero(),
        Vec2f::one(),
        None,
    );
    let mut pool = TexturePool::new(PixelSize { w: 64, h: 64 });
    let mut backend = TinyBackend;
    let shared = DynamicOptional::none();
    let mut counter = FrameCounter::new();
    let output = PixelRect { x: 0, y: 0, w: 100, h: 100 };
    for _frame in 0..7 {
        let mut commands = Vec::new();
        render(
            &mut window,
            &mut pool,
            &mut backend,
            &shared,
            counter,
            output,
            0,
            &mut commands,
        )
        .unwrap();
        counter.tick();
    }
    // Due at frame indices 0, 3 and 6: the updater made three textures, and
    // after the first it remade the same handle in place.
    assert_eq!(pool.num_textures(), 1);
}

#[test]
fn nothing_is_drawn_outside_the_output_rectangle() {
    let leaf = |x: u32, y: u32| {
        color_window(
            Color::rgb(3, 3, 3),
            Vec2f::new(x, y),
            Vec2f::new(300_000, 300_000),
            None,
        )
    };
    let inner = color_window(
        Color::rgb(5, 5, 5),
        Vec2f::new(500_000, 100_000),
        Vec2f::new(400_000, 800_000),
        Some(vec![leaf(0, 0), leaf(700_000, 700_000)]),
    );
    let mut root = color_window(
        Color::rgb(7, 7, 7),
        Vec2f::new(100_000, 200_000),
        Vec2f::new(600_000, 500_000),
        Some(vec![inner]),
    );
    let mut pool = TexturePool::new(PixelSize { w: 64, h: 64 });
    let mut backend = TinyBackend;
    let shared = DynamicOptional::none();
    let output = PixelRect { x: 30, y: 40, w: 643, h: 481 };
    let mut commands = Vec::new();
    render(
        &mut root,
        &mut pool,
        &mut backend,
        &shared,
        FrameCounter::new(),
        output,
        0,
        &mut commands,
    )
    .unwrap();
    assert!(!commands.is_empty());
    for command in &commands {
        let dest = match command {
            DrawCommand::FillRect { rect, .. } => rect,
            DrawCommand::CopyTexture { dest, .. } => dest,
        };
        assert!(dest.x >= output.x && dest.y >= output.y);
        assert!(dest.x + dest.w <= output.x + output.w);
        assert!(dest.y + dest.h <= output.y + output.h);
    }
}

#[test]
fn a_tree_without_updaters_renders_the_same_every_frame() {
    let child = color_window(
        Color::rgb(8, 8, 8),
        Vec2f::new(250_000, 250_000),
        Vec2f::new(500_000, 500_000),
        None,
    );
    let mut root = color_window(Color::rgb(1, 2, 3), Vec2f::zero(), Vec2f::one(), Some(vec![child]));
    let mut pool = TexturePool::new(PixelSize { w: 64, h: 64 });
    let mut backend = TinyBackend;
    let shared = DynamicOptional::none();
    let output = PixelRect { x: 0, y: 0, w: 256, h: 256 };
    let mut counter = FrameCounter::new();
    let mut first: Option<Vec<DrawCommand>> = None;
    for _ in 0..3 {
        let mut commands = Vec::new();
        render(
            &mut root,
            &mut pool,
            &mut backend,
            &shared,
            counter,
            output,
            7777,
            &mut commands,
        )
        .unwrap();
        counter.tick();
        match &first {
            None => first = Some(commands),
            Some(expected) => assert_eq!(&commands, expected),
        }
    }
}

/// An updater that always fails, aborting the frame.
struct FailingUpdater;

impl WindowUpdater for FailingUpdater {
    type NodeState = ();
    type Shared = ();

    fn update(
        &mut self,
        _contents: &WindowContents,
        _state: &mut DynamicOptional<()>,
        _shared: &DynamicOptional<()>,
        _area: PixelRect,
    ) -> Result<UpdateDecision, String> {
        Err(String::from("service unavailable"))
    }
}

#[test]
fn a_degenerate_scroll_period_is_rejected_when_contents_are_applied() {
    let mut pool = TexturePool::new(PixelSize { w: 64, h: 64 });
    let mut backend = TinyBackend;
    let mut contents = WindowContents::Color(Color::rgb(0, 0, 0));
    let desired = TextureCreationInfo::Text(
        FontInfo {
            path: String::from("assets/fonts/plain.ttf"),
            style: FontStyle { bold: false, italic: false },
            hinting: FontHinting::Normal,
        },
        TextDisplayInfo {
            text: String::from("hello"),
            color: Color::rgb(0, 0, 0),
            scroll: ScrollBehavior::LoopEvery { period_millis: 0 },
            max_pixel_width: 10,
            pixel_height: 10,
        },
    );
    let result = update_texture_contents(&mut contents, &mut pool, &mut backend, desired, None);
    assert!(matches!(
        result,
        Err(RenderError::ContentsCreationFailed(TextureCreationError::DegenerateScrollPeriod))
    ));
    assert!(matches!(contents, WindowContents::Color(_)));
    assert_eq!(pool.num_textures(), 0);
}

#[test]
fn a_well_formed_fallback_rescues_a_degenerate_description() {
    let mut pool = TexturePool::new(PixelSize { w: 64, h: 64 });
    let mut backend = TinyBackend;
    let mut contents = WindowContents::Color(Color::rgb(0, 0, 0));
    let desired = TextureCreationInfo::Text(
        FontInfo {
            path: String::from("assets/fonts/plain.ttf"),
            style: FontStyle { bold: false, italic: false },
            hinting: FontHinting::Normal,
        },
        TextDisplayInfo {
            text: String::from("hello"),
            color: Color::rgb(0, 0, 0),
            scroll: ScrollBehavior::LoopEvery { period_millis: 0 },
            max_pixel_width: 10,
            pixel_height: 10,
        },
    );
    let fallback = TextureCreationInfo::Path(String::from("assets/fallback.png"));
    update_texture_contents(&mut contents, &mut pool, &mut backend, desired, Some(fallback))
        .unwrap();
    assert!(matches!(contents, WindowContents::Texture(_)));
    assert_eq!(pool.num_textures(), 1);
    assert!(pool
        .get_entry(match &contents {
            WindowContents::Texture(handle) => handle,
            _ => unreachable!(),
        })
        .text_metadata
        .is_none());
}

#[test]
fn a_frame_with_no_due_updater_changes_nothing() {
    // The updater fires every three frames; on the frames in between, the
    // update pass makes no resource and the draw plan is the frame-zero one
    // of a pure color window.
    let rate = UpdateRate::from_seconds(50, 60).unwrap();
    let mut window: Window<CountingUpdater> = Window::new(
        Some(UpdaterEntry { updater: CountingUpdater, rate }),
        DynamicOptional::new(0u32),
        WindowContents::Color(Color::rgb(4, 5, 6)),
        None,
        Vec2f::zero(),
        Vec2f::one(),
        None,
    );
    let mut pool = TexturePool::new(PixelSize { w: 64, h: 64 });
    let mut backend = TinyBackend;
    let shared = DynamicOptional::none();
    let mut counter = FrameCounter::new();
    counter.tick(); // frame index 1: not a multiple of 3
    let output = PixelRect { x: 0, y: 0, w: 100, h: 100 };
    let mut commands = Vec::new();
    render(&mut window, &mut pool, &mut backend, &shared, counter, output, 0, &mut commands)
        .unwrap();
    assert_eq!(pool.num_textures(), 0);
    assert!(matches!(window.contents(), WindowContents::Color(_)));
    assert_eq!(
        commands,
        vec![DrawCommand::FillRect {
            color: Color::rgb(4, 5, 6),
            rect: PixelRect { x: 0, y: 0, w: 100, h: 100 },
        }]
    );
}

#[test]
fn updater_failure_aborts_the_whole_frame() {
    let mut window: Window<FailingUpdater> = Window::new(
        Some(UpdaterEntry { updater: FailingUpdater, rate: UpdateRate::once_per_frame() }),
        DynamicOptional::none(),
        WindowContents::Color(Color::rgb(0, 0, 0)),
        None,
        Vec2f::zero(),
        Vec2f::one(),
        None,
    );
    let mut pool = TexturePool::new(PixelSize { w: 64, h: 64 });
    let mut backend = TinyBackend;
    let shared = DynamicOptional::none();
    let output = PixelRect { x: 0, y: 0, w: 100, h: 100 };
    let mut commands = Vec::new();
    let result = render(
        &mut window,
        &mut pool,
        &mut backend,
        &shared,
        FrameCounter::new(),
        output,
        0,
        &mut commands,
    );
    match result {
        Err(RenderError::UpdaterFailed(reason)) => {
            assert_eq!(reason, "service unavailable");
        },
        other => panic!("expected an updater failure, got {:?}", other.is_err()),
    }
    assert!(commands.is_empty());
}
