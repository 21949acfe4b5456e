use ray_tracer::canvas::Canvas;
use ray_tracer::ppm::Rgb8;

fn black() -> Rgb8 {
    Rgb8 { red: 0, green: 0, blue: 0 }
}

fn text(canvas: &Canvas<Rgb8>) -> String {
    String::from_utf8(canvas.to_ppm()).unwrap()
}

#[test]
fn two_by_two_canvas_serialises_exactly() {
    let mut canvas = Canvas::new(2, 2, black());
    canvas
        .set(0, 0, Rgb8 { red: 255, green: 204, blue: 153 })
        .unwrap();
    assert_eq!(
        text(&canvas),
        "P3\n2 2\n255\n255 204 153 0 0 0 \n0 0 0 0 0 0 \n"
    );
}

#[test]
fn header_names_columns_then_rows() {
    let canvas = Canvas::new(5, 3, black());
    let out = text(&canvas);
    let lines: Vec<&str> = out.lines().collect();
    assert_eq!(lines[0], "P3");
    assert_eq!(lines[1], "5 3");
    assert_eq!(lines[2], "255");
    assert_eq!(lines.len(), 6);
    assert_eq!(lines[3], "0 0 0 0 0 0 0 0 0 0 0 0 0 0 0 ");
}

#[test]
fn pixels_are_written_row_by_row() {
    let mut canvas = Canvas::new(1, 3, black());
    canvas.set(1, 0, Rgb8 { red: 7, green: 10, blue: 99 }).unwrap();
    canvas.set(2, 0, Rgb8 { red: 100, green: 9, blue: 255 }).unwrap();
    assert_eq!(
        text(&canvas),
        "P3\n1 3\n255\n0 0 0 \n7 10 99 \n100 9 255 \n"
    );
}

#[test]
fn empty_canvas_is_header_only() {
    let canvas = Canvas::new(0, 0, black());
    assert_eq!(text(&canvas), "P3\n0 0\n255\n");
    let rows_only = Canvas::new(0, 2, black());
    assert_eq!(text(&rows_only), "P3\n0 2\n255\n\n\n");
}

#[test]
fn large_dimensions_are_written_in_decimal() {
    let canvas = Canvas::new(1234, 1, black());
    let out = text(&canvas);
    assert!(out.starts_with("P3\n1234 1\n255\n"));
    assert_eq!(out.len(), "P3\n1234 1\n255\n".len() + 1234 * 6 + 1);
}
