use google_plus_posts_dumper::markdown::transform_image_path;

#[test]
fn test_transform_image_path_standard() {
    assert_eq!(
        transform_image_path("../Photos/Photos from posts/pretty/image.jpg", "2011-11-04"),
        "/posts/2011-11-04-image.jpg"
    );
}

#[test]
fn test_transform_image_path_complex_path() {
    assert_eq!(
        transform_image_path(
            "../Photos/Photos%20from%20posts/Vasquez%20Rocks/183zw3ui6c0yq.jpg",
            "2012-11-01"
        ),
        "/posts/2012-11-01-183zw3ui6c0yq.jpg"
    );
}

#[test]
fn test_transform_image_path_simple_filename() {
    assert_eq!(
        transform_image_path("image.jpg", "2013-07-13"),
        "/posts/2013-07-13-image.jpg"
    );
}

#[test]
fn test_transform_image_path_empty_date() {
    assert_eq!(transform_image_path("image.jpg", ""), "/posts/-image.jpg");
}

#[test]
fn test_transform_image_path_url() {
    assert_eq!(
        transform_image_path("http://example.com/path/image.png", "2013-07-13"),
        "/posts/2013-07-13-image.png"
    );
}

#[test]
fn test_transform_image_path_windows_path() {
    // Backslashes are ordinary filename characters here, not separators
    assert_eq!(
        transform_image_path("C:\\Photos\\image.jpg", "2015-01-01"),
        "/posts/2015-01-01-C:\\Photos\\image.jpg"
    );
}

#[test]
fn test_transform_image_path_absolute_path() {
    assert_eq!(
        transform_image_path("/var/data/photos/image.jpg", "2016-06-15"),
        "/posts/2016-06-15-image.jpg"
    );
}

#[test]
fn test_transform_image_path_special_chars() {
    assert_eq!(
        transform_image_path("../Photos/my photo (1).jpg", "2017-03-20"),
        "/posts/2017-03-20-my photo (1).jpg"
    );
}

#[test]
fn test_transform_image_path_no_extension() {
    assert_eq!(
        transform_image_path("../Photos/image", "2018-12-25"),
        "/posts/2018-12-25-image"
    );
}

#[test]
fn test_transform_image_path_fallback_when_no_filename() {
    // Edge case: a path with no final segment keeps the original text
    assert_eq!(
        transform_image_path("..", "2019-01-01"),
        "/posts/2019-01-01-.."
    );
}
