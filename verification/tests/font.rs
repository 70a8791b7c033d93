use pdf2vid::font::{
    default_candidates, escape_fontfile_for_filter, install_hint_for_platform, platform_from_os,
    resolve_font, FontRenderKind, FontStaging, Platform,
};

#[test]
fn escape_fontfile_handles_colons_and_backslashes() {
    assert_eq!(
        escape_fontfile_for_filter(r"C:\Windows\Fonts\arial.ttf"),
        r"C\:\\Windows\\Fonts\\arial.ttf"
    );
    assert_eq!(escape_fontfile_for_filter("/tmp/font.ttf"), "/tmp/font.ttf");
    assert_eq!(escape_fontfile_for_filter("/tmp/it's.ttf"), "/tmp/its.ttf");
}

#[test]
fn install_hint_matches_platform() {
    for platform in [Platform::Windows, Platform::MacOs, Platform::Other] {
        let hint = install_hint_for_platform(platform);
        match platform {
            Platform::Windows => assert!(hint.contains("C:\\Windows\\Fonts")),
            Platform::MacOs => assert!(hint.contains("/Library/Fonts")),
            Platform::Other => assert!(hint.to_lowercase().contains("fonts")),
        }
    }
}

#[test]
fn candidates_prefer_ttf_first() {
    assert_eq!(default_candidates(Platform::Windows)[0], r"C:\Windows\Fonts\arial.ttf");
    assert_eq!(default_candidates(Platform::MacOs).len(), 5);
    assert_eq!(
        default_candidates(Platform::Other)[0],
        "/usr/share/fonts/truetype/dejavu/DejaVuSans.ttf"
    );
}

#[test]
fn resolve_font_takes_first_staged_candidate() {
    let attempts = vec![
        FontStaging { candidate: "/a/missing.ttf".into(), file_name: Some("missing.ttf".into()), staged: None },
        FontStaging {
            candidate: "C:\\Fonts\\arial.ttf".into(),
            file_name: Some("arial.ttf".into()),
            staged: Some("C:\\work\\font.ttf".into()),
        },
    ];
    let r = resolve_font(Platform::Windows, &attempts);
    assert!(r.found);
    assert_eq!(r.source_path.as_deref(), Some("C:\\Fonts\\arial.ttf"));
    assert_eq!(r.render_path.as_deref(), Some("C\\work\\font.ttf"));
    assert_eq!(r.render_kind, FontRenderKind::Workdir);
    assert_eq!(r.message, "Using font arial.ttf");
    assert!(r.install_hint.is_none());
}

#[test]
fn resolve_font_reports_missing_with_hint() {
    let r = resolve_font(Platform::Other, &Vec::new());
    assert!(!r.found);
    assert!(r.render_path.is_none());
    assert_eq!(r.render_kind, FontRenderKind::Missing);
    assert_eq!(r.message, "No system font found; drawtext will be skipped");
    assert_eq!(r.install_hint, Some(install_hint_for_platform(Platform::Other)));
}

#[test]
fn fontfile_escape_round_trips() {
    let p = r"D:\fonts\my:font.ttf";
    let escaped = escape_fontfile_for_filter(p);
    let mut unescaped = String::new();
    let mut chars = escaped.chars();
    while let Some(c) = chars.next() {
        if c == '\\' {
            if let Some(n) = chars.next() {
                unescaped.push(n);
            }
        } else {
            unescaped.push(c);
        }
    }
    assert_eq!(unescaped, p);
}

#[test]
fn platform_from_os_names() {
    assert_eq!(platform_from_os("windows"), Platform::Windows);
    assert_eq!(platform_from_os("macos"), Platform::MacOs);
    assert_eq!(platform_from_os("linux"), Platform::Other);
}

#[test]
fn resolve_font_returns_structured_missing_on_empty_dir() {
    let staged = vec![FontStaging {
        candidate: "/usr/share/fonts/truetype/dejavu/DejaVuSans.ttf".into(),
        file_name: Some("DejaVuSans.ttf".into()),
        staged: Some("/tmp/work/font.ttf".into()),
    }];
    for attempts in [Vec::new(), staged] {
        let r = resolve_font(Platform::Other, &attempts);
        if r.found {
            assert!(r.render_path.is_some());
            assert_eq!(r.render_kind, FontRenderKind::Workdir);
            assert!(r.install_hint.is_none());
        } else {
            assert!(r.render_path.is_none());
            assert_eq!(r.render_kind, FontRenderKind::Missing);
            assert!(r.install_hint.is_some());
        }
    }
}

#[test]
fn resolve_font_uses_safe_filename() {
    let attempts = vec![FontStaging {
        candidate: r"C:\Windows\Fonts\arial.ttf".into(),
        file_name: Some("arial.ttf".into()),
        staged: Some(r"C:\Users\me\render\font.ttf".into()),
    }];
    let r = resolve_font(Platform::Windows, &attempts);
    let p = r.render_path.unwrap();
    assert!(p.ends_with("font.ttf"), "render_path should end in font.ttf: {p}");
    assert!(!p.contains(':'), "render_path must be colon-free: {p}");
    let escaped = escape_fontfile_for_filter(&p);
    assert!(escaped.contains(r"\\"));
}

#[test]
fn every_ttf_candidate_comes_before_every_ttc() {
    for platform in [Platform::Windows, Platform::MacOs, Platform::Other] {
        let c = default_candidates(platform);
        assert!(!c.is_empty());
        for i in 0..c.len() {
            for j in (i + 1)..c.len() {
                assert!(!(c[i].ends_with(".ttc") && c[j].ends_with(".ttf")));
            }
        }
    }
    let mac = default_candidates(Platform::MacOs);
    assert_eq!(mac[0], "/System/Library/Fonts/Supplemental/Arial.ttf");
    assert_eq!(mac[1], "/Library/Fonts/Arial.ttf");
    assert_eq!(mac[2], "/System/Library/Fonts/SFNS.ttf");
    assert!(mac[3].ends_with(".ttc"));
    assert!(mac[4].ends_with(".ttc"));
}

#[test]
fn escaped_fontfile_undone_by_two_replacements() {
    for p in [r"C:\Windows\Fonts\arial.ttf", r"D:\it's\a\:b.ttf", "/tmp/font.ttf", r"\\::"] {
        let e = escape_fontfile_for_filter(p);
        assert!(!e.contains('\''));
        let chars: Vec<char> = e.chars().collect();
        for (j, ch) in chars.iter().enumerate() {
            if *ch == ':' {
                assert!(j >= 1 && chars[j - 1] == '\\');
            }
        }
        assert_eq!(e.replace(r"\:", ":").replace(r"\\", "\\"), p.replace('\'', ""));
    }
}
