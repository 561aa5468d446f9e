use frgb::display_size::{parse_resolution, ResolutionSource};

/// The same reading written with `str` methods, to compare against.
fn xdpyinfo_reference(text: &str) -> Option<(i32, i32)> {
    for line in text.lines() {
        let line = line.trim();
        if line.starts_with("dimensions:") {
            if let Some(dims) = line.split_whitespace().nth(1) {
                if let Some((w, h)) = dims.split_once('x') {
                    if let (Ok(w), Ok(h)) = (w.parse::<i32>(), h.parse::<i32>()) {
                        return Some((w, h));
                    }
                }
            }
        }
    }
    None
}

fn xrandr_reference(text: &str) -> Option<(i32, i32)> {
    for line in text.lines() {
        if line.contains(" connected") && line.contains(" primary") {
            for word in line.split_whitespace() {
                if let Some((res, _offsets)) = word.split_once('+') {
                    if let Some((w, h)) = res.split_once('x') {
                        if let (Ok(w), Ok(h)) = (w.parse::<i32>(), h.parse::<i32>()) {
                            return Some((w, h));
                        }
                    }
                }
            }
        }
    }
    None
}

const XDPYINFO: &str = "name of display:    :0\nversion number:    11.0\nscreen #0:\n  dimensions:    3440x1440 pixels (907x381 millimeters)\n  resolution:    96x96 dots per inch\n";

const XRANDR: &str = "Screen 0: minimum 320 x 200, current 5360 x 1440, maximum 16384 x 16384\nDP-1 connected 1920x1080+3440+0 (normal left inverted right x axis y axis) 527mm x 296mm\nDP-2 connected primary 3440x1440+0+0 (normal left inverted right x axis y axis) 797mm x 334mm\n   3440x1440    59.97*+\n";

#[test]
fn xdpyinfo_dimensions_line() {
    assert_eq!(parse_resolution(ResolutionSource::Xdpyinfo, XDPYINFO), Some((3440, 1440)));
}

#[test]
fn xrandr_primary_output() {
    assert_eq!(parse_resolution(ResolutionSource::Xrandr, XRANDR), Some((3440, 1440)));
}

#[test]
fn no_resolution_in_other_text() {
    assert_eq!(parse_resolution(ResolutionSource::Xdpyinfo, ""), None);
    assert_eq!(parse_resolution(ResolutionSource::Xdpyinfo, "dimensions:\n"), None);
    assert_eq!(parse_resolution(ResolutionSource::Xrandr, XDPYINFO), None);
    assert_eq!(parse_resolution(ResolutionSource::Xdpyinfo, XRANDR), None);
}

#[test]
fn resolution_readings_agree_with_str_methods() {
    let cases = [
        XDPYINFO,
        XRANDR,
        "dimensions: 800x600\r\n",
        "\u{3000}dimensions:\u{2003}1024x768\u{a0}px\n",
        "dimensions: 800x\ndimensions: 640x480\n",
        "dimensions: +800x-600\n",
        "dimensions: 2147483647x-2147483648\n",
        "dimensions: 2147483648x10\n",
        "dimensions: -x5\n",
        "dimensions: 12x34x56\n",
        "dimensions:1x2 3x4\n",
        "HDMI-1 connected primary 1280x720+0+0\r\nother",
        "X connected primary +1x2 ax+ 7x8+9\n",
        "X connected primary 10x20\n",
        " primary connected\n",
        "\n\n\r\ndimensions: 5x6",
        "dimensions: 5x6\r",
        "disconnected primary 1x1+0\n",
    ];
    for text in cases {
        assert_eq!(parse_resolution(ResolutionSource::Xdpyinfo, text), xdpyinfo_reference(text), "xdpyinfo {text:?}");
        assert_eq!(parse_resolution(ResolutionSource::Xrandr, text), xrandr_reference(text), "xrandr {text:?}");
    }
}
