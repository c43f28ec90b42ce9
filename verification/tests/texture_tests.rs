use kiosk_engine::errors::{RenderError, TextureCreationError};
use kiosk_engine::geometry::PixelRect;
use kiosk_engine::texture::{
    chars_to_keep, padded_size, scaled_point_size, split_overflowing_scrolled_rect, Color,
    DrawCommand, FontHinting, FontInfo, FontStyle, PixelSize, ScrollBehavior, TextDisplayInfo,
    TextureBackend, TextureCreationInfo, TexturePool,
};

/// A deterministic stand-in for the host's rasterizer: every character
/// measures ten pixels wide, and text stands as tall as its point size.
struct FakeBackend {
    committed: Vec<PixelSize>,
    staged: Option<PixelSize>,
    last_staged_text: Option<String>,
    fail_everything: bool,
}

impl FakeBackend {
    fn new() -> Self {
        FakeBackend { committed: Vec::new(), staged: None, last_staged_text: None, fail_everything: false }
    }
}

impl TextureBackend for FakeBackend {
    fn stage_from_path(&mut self, path: &str) -> Result<PixelSize, String> {
        if self.fail_everything {
            return Err(format!("cannot load {}", path));
        }
        let size = PixelSize { w: 64, h: 48 };
        self.staged = Some(size);
        Ok(size)
    }

    fn stage_from_url(&mut self, url: &str) -> Result<PixelSize, String> {
        if self.fail_everything {
            return Err(format!("cannot fetch {}", url));
        }
        let size = PixelSize { w: 32, h: 32 };
        self.staged = Some(size);
        Ok(size)
    }

    fn measure_text(
        &mut self,
        _font: &FontInfo,
        point_size: u16,
        text: &str,
    ) -> Result<PixelSize, String> {
        if self.fail_everything {
            return Err(String::from("no font"));
        }
        Ok(PixelSize { w: 10 * text.chars().count() as u32, h: point_size as u32 })
    }

    fn stage_text(
        &mut self,
        _font: &FontInfo,
        _point_size: u16,
        text: &str,
        _color: Color,
        padded_size: PixelSize,
    ) -> Result<(), String> {
        if self.fail_everything {
            return Err(String::from("no font"));
        }
        self.staged = Some(padded_size);
        self.last_staged_text = Some(String::from(text));
        Ok(())
    }

    fn commit_append(&mut self) {
        let staged = self.staged.take().expect("nothing staged");
        self.committed.push(staged);
    }

    fn commit_replace(&mut self, index: usize) {
        let staged = self.staged.take().expect("nothing staged");
        self.committed[index] = staged;
    }
}

fn plain_font() -> FontInfo {
    FontInfo {
        path: String::from("assets/fonts/plain.ttf"),
        style: FontStyle { bold: false, italic: false },
        hinting: FontHinting::Normal,
    }
}

fn text_info(text: &str, max_pixel_width: u32, pixel_height: u32) -> TextureCreationInfo {
    TextureCreationInfo::Text(
        plain_font(),
        TextDisplayInfo {
            text: String::from(text),
            color: Color::rgb(0, 0, 0),
            scroll: ScrollBehavior::LoopEvery { period_millis: 3000 },
            max_pixel_width,
            pixel_height,
        },
    )
}

#[test]
fn synthesis_planning_formulas() {
    // Scale the 100-point reference measurement to the requested height.
    assert_eq!(scaled_point_size(20, 50), 40);
    assert_eq!(scaled_point_size(100, 100), 100);
    // Degenerate and saturating cases.
    assert_eq!(scaled_point_size(20, 0), u16::MAX);
    assert_eq!(scaled_point_size(4_000_000_000, 1), u16::MAX);
    // Overflow ratio estimated from character count.
    assert_eq!(chars_to_keep(10, 50, 100), 5);
    assert_eq!(chars_to_keep(7, 10, 100), 0);
    // Padding: right-pad to the maximum width, force the height exactly.
    assert_eq!(padded_size(PixelSize { w: 20, h: 20 }, 100, 20), PixelSize { w: 100, h: 20 });
    assert_eq!(padded_size(PixelSize { w: 150, h: 19 }, 100, 20), PixelSize { w: 150, h: 20 });
    assert_eq!(padded_size(PixelSize { w: 150, h: 20 }, 100, 20), PixelSize { w: 150, h: 20 });
}

#[test]
fn text_synthesis_hits_height_exactly_and_width_at_least_max() {
    // Text "OK" requested at pixel height 20 and max width 100.
    let mut pool = TexturePool::new(PixelSize { w: 4096, h: 4096 });
    let mut backend = FakeBackend::new();
    let handle = pool.make_texture(&mut backend, &text_info("OK", 100, 20)).unwrap();
    let entry = pool.get_entry(&handle);
    assert_eq!(entry.size.h, 20);
    assert!(entry.size.w >= 100);
    assert_eq!(entry.size, PixelSize { w: 100, h: 20 });
    assert_eq!(backend.committed, vec![PixelSize { w: 100, h: 20 }]);
    let metadata = entry.text_metadata.as_ref().expect("text metadata");
    assert_eq!(metadata.text, "OK");
    assert_eq!(metadata.size, entry.size);
}

#[test]
fn blank_text_gets_the_placeholder_glyphs() {
    let mut pool = TexturePool::new(PixelSize { w: 4096, h: 4096 });
    let mut backend = FakeBackend::new();
    let handle = pool.make_texture(&mut backend, &text_info("", 50, 20)).unwrap();
    let entry = pool.get_entry(&handle);
    let metadata = entry.text_metadata.as_ref().expect("text metadata");
    assert_eq!(metadata.text, "<BLANK TEXT>");
    assert_eq!(backend.last_staged_text.as_deref(), Some("<BLANK TEXT>"));
}

#[test]
fn overlong_text_is_truncated_by_character_count() {
    // Ten characters measure 100 pixels, over the pool's 50-pixel cap:
    // keep 10 * 50 / 100 = 5 characters.
    let mut pool = TexturePool::new(PixelSize { w: 50, h: 4096 });
    let mut backend = FakeBackend::new();
    let handle = pool.make_texture(&mut backend, &text_info("HELLOWORLD", 10, 20)).unwrap();
    let entry = pool.get_entry(&handle);
    let metadata = entry.text_metadata.as_ref().expect("text metadata");
    assert_eq!(metadata.text, "HELLO");
    assert_eq!(entry.size, PixelSize { w: 50, h: 20 });
}

#[test]
fn non_text_resources_carry_no_scroll_metadata() {
    let mut pool = TexturePool::new(PixelSize { w: 4096, h: 4096 });
    let mut backend = FakeBackend::new();
    let from_path = pool
        .make_texture(&mut backend, &TextureCreationInfo::Path(String::from("assets/logo.png")))
        .unwrap();
    let from_url = pool
        .make_texture(&mut backend, &TextureCreationInfo::Url(String::from("https://example.org/a.png")))
        .unwrap();
    assert_eq!(pool.num_textures(), 2);
    assert!(pool.get_entry(&from_path).text_metadata.is_none());
    assert!(pool.get_entry(&from_url).text_metadata.is_none());
    assert_eq!(pool.get_entry(&from_path).size, PixelSize { w: 64, h: 48 });
    assert_eq!(pool.get_entry(&from_url).size, PixelSize { w: 32, h: 32 });
}

#[test]
fn creation_failure_leaves_the_pool_untouched() {
    let mut pool = TexturePool::new(PixelSize { w: 4096, h: 4096 });
    let mut backend = FakeBackend::new();
    backend.fail_everything = true;
    let result = pool.make_texture(&mut backend, &TextureCreationInfo::Path(String::from("x.png")));
    assert!(matches!(result, Err(TextureCreationError::Backend(_))));
    assert_eq!(pool.num_textures(), 0);
}

#[test]
fn recreate_then_draw_reflects_only_the_new_description() {
    let mut pool = TexturePool::new(PixelSize { w: 4096, h: 4096 });
    let mut backend = FakeBackend::new();
    let handle = pool
        .make_texture(&mut backend, &TextureCreationInfo::Path(String::from("old.png")))
        .unwrap();

    // Drawing before the rebuild: a plain whole-texture copy.
    let dest = PixelRect { x: 5, y: 6, w: 70, h: 30 };
    let mut commands = Vec::new();
    pool.draw_texture_to_canvas(&handle, dest, 123, &mut commands).unwrap();
    assert_eq!(commands, vec![DrawCommand::CopyTexture { handle, src: None, dest }]);

    // Rebuild the same handle from a text description.
    pool.remake_texture(&mut backend, &text_info("NEWS", 70, 30), &handle).unwrap();
    assert_eq!(pool.num_textures(), 1);
    let entry = pool.get_entry(&handle);
    assert_eq!(entry.size, PixelSize { w: 70, h: 30 });
    assert_eq!(entry.text_metadata.as_ref().unwrap().text, "NEWS");

    // Drawing now reflects the text description alone: nothing of the old
    // plain resource survives (the copy carries a scroll-window source).
    // seed = 2999 ms; fraction = 1 - 2999/3000, so the offset floors to 0 and
    // one full-width slice is copied.
    let mut commands = Vec::new();
    pool.draw_texture_to_canvas(&handle, dest, 2999, &mut commands).unwrap();
    assert_eq!(
        commands,
        vec![DrawCommand::CopyTexture {
            handle,
            src: Some(PixelRect { x: 0, y: 0, w: 70, h: 30 }),
            dest,
        }]
    );

    // Rebuild back to a plain resource: the scroll metadata is removed.
    pool.remake_texture(
        &mut backend,
        &TextureCreationInfo::Path(String::from("new.png")),
        &handle,
    )
    .unwrap();
    assert!(pool.get_entry(&handle).text_metadata.is_none());
}

#[test]
fn scroll_split_covers_one_window_without_gap_or_overlap() {
    // Texture 200 wide, destination 100 wide, offset 150: the window
    // [150, 250) wraps, splitting into [150, 200) and [0, 50).
    let mut pool = TexturePool::new(PixelSize { w: 4096, h: 4096 });
    let mut backend = FakeBackend::new();
    // 20 characters * 10px = 200 wide at any point size; height hits 30.
    let handle = pool
        .make_texture(&mut backend, &text_info("ABCDEFGHIJKLMNOPQRST", 200, 30))
        .unwrap();
    assert_eq!(pool.get_entry(&handle).size, PixelSize { w: 200, h: 30 });

    // seed = now * dest_w / texture_w = 1500 * 100 / 200 = 750 ms;
    // fraction = 1 - (750 % 3000) / 3000 = 0.75; offset = 200 * 0.75 = 150.
    let dest = PixelRect { x: 40, y: 10, w: 100, h: 30 };
    let mut commands = Vec::new();
    pool.draw_texture_to_canvas(&handle, dest, 1500, &mut commands).unwrap();
    assert_eq!(
        commands,
        vec![
            DrawCommand::CopyTexture {
                handle,
                src: Some(PixelRect { x: 150, y: 0, w: 50, h: 30 }),
                dest: PixelRect { x: 40, y: 10, w: 50, h: 30 },
            },
            DrawCommand::CopyTexture {
                handle,
                src: Some(PixelRect { x: 0, y: 0, w: 50, h: 30 }),
                dest: PixelRect { x: 90, y: 10, w: 50, h: 30 },
            },
        ]
    );
    // The two slices cover exactly one destination-width window: 50 + 50
    // source pixels, contiguous destinations [40, 90) and [90, 140).
}

#[test]
fn scroll_draw_uses_one_slice_when_the_window_fits() {
    let mut pool = TexturePool::new(PixelSize { w: 4096, h: 4096 });
    let mut backend = FakeBackend::new();
    let handle = pool
        .make_texture(&mut backend, &text_info("ABCDEFGHIJKLMNOPQRST", 200, 30))
        .unwrap();
    // seed = 600 * 100 / 200 = 300; fraction = 0.9; offset = 180 > 100:
    // window [180, 280) wraps. Pick a time with a small offset instead:
    // seed = 6000 * 100 / 200 = 3000; fraction = 1 - 0 = 1.0 -> offset 200.
    // offset 200 + 100 > 200 wraps with an empty right slice; choose
    // now = 3000: seed = 1500, fraction = 0.5, offset 100, window [100, 200).
    let dest = PixelRect { x: 0, y: 0, w: 100, h: 30 };
    let mut commands = Vec::new();
    pool.draw_texture_to_canvas(&handle, dest, 3000, &mut commands).unwrap();
    assert_eq!(
        commands,
        vec![DrawCommand::CopyTexture {
            handle,
            src: Some(PixelRect { x: 100, y: 0, w: 100, h: 30 }),
            dest,
        }]
    );
}

#[test]
fn wrap_slice_appears_only_when_reading_past_the_end() {
    let texture_size = PixelSize { w: 200, h: 30 };
    let dest = PixelRect { x: 0, y: 0, w: 100, h: 30 };
    // Window [100, 200): flush against the end, no spill.
    let src = PixelRect { x: 100, y: 0, w: 100, h: 30 };
    let (right, left) = split_overflowing_scrolled_rect(src, dest, texture_size);
    assert_eq!(right, dest);
    assert!(left.is_none());
    // Window [101, 201): one pixel of spill wraps to the origin.
    let src = PixelRect { x: 101, y: 0, w: 100, h: 30 };
    let (right, left) = split_overflowing_scrolled_rect(src, dest, texture_size);
    assert_eq!(right, PixelRect { x: 0, y: 0, w: 99, h: 30 });
    let (left_src, left_dest) = left.unwrap();
    assert_eq!(left_src, PixelRect { x: 0, y: 0, w: 1, h: 30 });
    assert_eq!(left_dest, PixelRect { x: 99, y: 0, w: 1, h: 30 });
}

/// A backend whose measurements never shrink: the character-count estimate
/// cannot rescue an overflowing text.
struct StubbornBackend;

impl TextureBackend for StubbornBackend {
    fn stage_from_path(&mut self, _path: &str) -> Result<PixelSize, String> {
        Ok(PixelSize { w: 1, h: 1 })
    }
    fn stage_from_url(&mut self, _url: &str) -> Result<PixelSize, String> {
        Ok(PixelSize { w: 1, h: 1 })
    }
    fn measure_text(&mut self, _f: &FontInfo, _p: u16, _t: &str) -> Result<PixelSize, String> {
        Ok(PixelSize { w: 100, h: 20 })
    }
    fn stage_text(
        &mut self,
        _f: &FontInfo,
        _p: u16,
        _t: &str,
        _c: Color,
        _s: PixelSize,
    ) -> Result<(), String> {
        Ok(())
    }
    fn commit_append(&mut self) {}
    fn commit_replace(&mut self, _index: usize) {}
}

#[test]
fn cut_text_still_too_wide_is_an_error() {
    let mut pool = TexturePool::new(PixelSize { w: 50, h: 4096 });
    let mut backend = StubbornBackend;
    let result = pool.make_texture(&mut backend, &text_info("HELLOWORLD", 10, 20));
    assert!(matches!(
        result,
        Err(TextureCreationError::CutTextStillTooWide { cut_width: 100, max_width: 50 })
    ));
    assert_eq!(pool.num_textures(), 0);
}

#[test]
fn the_pool_refuses_more_handles_than_it_can_represent() {
    let mut pool = TexturePool::new(PixelSize { w: 4096, h: 4096 });
    let mut backend = FakeBackend::new();
    let info = TextureCreationInfo::Path(String::from("assets/logo.png"));
    for _ in 0..0x10000 {
        pool.make_texture(&mut backend, &info).unwrap();
    }
    assert!(matches!(
        pool.make_texture(&mut backend, &info),
        Err(TextureCreationError::PoolFull)
    ));
    assert_eq!(pool.num_textures(), 0x10000);
}

#[test]
fn a_widthless_text_texture_cannot_be_drawn() {
    // Measurements of zero width and a zero maximum width leave a texture
    // with no width at all; drawing it into a zero-width destination fails
    // rather than dividing by its width.
    struct ZeroBackend;
    impl TextureBackend for ZeroBackend {
        fn stage_from_path(&mut self, _path: &str) -> Result<PixelSize, String> {
            Ok(PixelSize { w: 1, h: 1 })
        }
        fn stage_from_url(&mut self, _url: &str) -> Result<PixelSize, String> {
            Ok(PixelSize { w: 1, h: 1 })
        }
        fn measure_text(&mut self, _f: &FontInfo, p: u16, _t: &str) -> Result<PixelSize, String> {
            Ok(PixelSize { w: 0, h: p as u32 })
        }
        fn stage_text(
            &mut self,
            _f: &FontInfo,
            _p: u16,
            _t: &str,
            _c: Color,
            _s: PixelSize,
        ) -> Result<(), String> {
            Ok(())
        }
        fn commit_append(&mut self) {}
        fn commit_replace(&mut self, _index: usize) {}
    }
    let mut pool = TexturePool::new(PixelSize { w: 4096, h: 4096 });
    let mut backend = ZeroBackend;
    let handle = pool.make_texture(&mut backend, &text_info("OK", 0, 20)).unwrap();
    assert_eq!(pool.get_entry(&handle).size, PixelSize { w: 0, h: 20 });
    let mut commands = Vec::new();
    let result = pool.draw_texture_to_canvas(
        &handle,
        PixelRect { x: 0, y: 0, w: 0, h: 20 },
        0,
        &mut commands,
    );
    assert!(matches!(result, Err(RenderError::DegenerateTextTexture)));
}

#[test]
fn scrolling_texture_narrower_than_dest_aborts_the_frame() {
    let mut pool = TexturePool::new(PixelSize { w: 4096, h: 4096 });
    let mut backend = FakeBackend::new();
    // Two characters, 20 pixels wide, padded to max width 50.
    let handle = pool.make_texture(&mut backend, &text_info("OK", 50, 20)).unwrap();
    let dest = PixelRect { x: 0, y: 0, w: 60, h: 20 };
    let mut commands = Vec::new();
    let result = pool.draw_texture_to_canvas(&handle, dest, 0, &mut commands);
    assert!(matches!(
        result,
        Err(RenderError::TextureNarrowerThanDest { texture_width: 50, dest_width: 60 })
    ));
    assert!(commands.is_empty());
}
