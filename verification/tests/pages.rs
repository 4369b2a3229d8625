use photo_server::album::Album;
use photo_server::http::HttpError;
use photo_server::params::{Dimensions, Params};
use photo_server::server::PhotoServer;

fn album(names: &[&str]) -> Album {
    let raw: Vec<Vec<u8>> = names.iter().map(|n| n.as_bytes().to_vec()).collect();
    Album::new(&raw).unwrap()
}

#[test]
fn index_of_vacation() {
    let a = album(&["b.jpg", "a.jpg", "README.txt"]);
    let size = Params { w: None, h: None }.get_dimensions();
    let page = PhotoServer::index("vacation", &a, Some("Sun & sea <3\n"), size);
    let expected = r#"<html>
 <head>
  <title>vacation</title>
 </head>
 <body>
  <h2>vacation</h2>
  <a href="..">Up</a><br/>
  <pre>Sun &amp; sea &lt;3
</pre>
  <a href="a.jpg.html?w=800&h=600"><img src="a.jpg.thumb"/></a>
  <a href="b.jpg.html?w=800&h=600"><img src="b.jpg.thumb"/></a>
  <br/>
  
 </body>
</html>"#;
    assert_eq!(page, expected);
    assert!(page.contains(r#"href="a.jpg.html?w=800&h=600""#));
    assert!(page.contains(r#"href="b.jpg.html?w=800&h=600""#));
    assert!(page.contains("Sun &amp; sea &lt;3"));
}

#[test]
fn index_without_readme_and_with_other_files() {
    let a = album(&["notes.txt", "z.JPG", "clip.mp4"]);
    let page = PhotoServer::index("2019-12", &a, None, Dimensions { w: 1024, h: 768 });
    let expected = r#"<html>
 <head>
  <title>2019-12</title>
 </head>
 <body>
  <h2>2019-12</h2>
  <a href="..">Up</a><br/>
  
  <a href="z.JPG.html?w=1024&h=768"><img src="z.JPG.thumb"/></a>
  <br/>
  <a href="clip.mp4">clip.mp4</a>
  <a href="notes.txt">notes.txt</a>
 </body>
</html>"#;
    assert_eq!(page, expected);
}

#[test]
fn index_of_an_empty_album() {
    let page = PhotoServer::index("empty", &album(&[]), None, Dimensions { w: 1, h: 1 });
    let expected = "<html>\n <head>\n  <title>empty</title>\n </head>\n <body>\n  <h2>empty</h2>\n  <a href=\"..\">Up</a><br/>\n  \n  \n  <br/>\n  \n </body>\n</html>";
    assert_eq!(page, expected);
}

#[test]
fn index_escapes_what_it_is_given() {
    let page = PhotoServer::index(
        "<b>&",
        &album(&[]),
        Some("</pre><script>alert(1)</script> a > b && c"),
        Dimensions { w: 800, h: 600 },
    );
    assert!(page.contains("<title>&lt;b&gt;&amp;</title>"));
    assert!(page.contains("<h2>&lt;b&gt;&amp;</h2>"));
    assert!(page.contains(
        "<pre>&lt;/pre&gt;&lt;script&gt;alert(1)&lt;/script&gt; a &gt; b &amp;&amp; c</pre>"
    ));
    assert!(!page.contains("<script>"));
}

#[test]
fn frame_of_a_picture() {
    let a = album(&["a.jpg", "b.jpg", "c.jpg", "README.txt"]);
    let page = PhotoServer::frame("vacation", "b.jpg", &a, Dimensions { w: 800, h: 600 }).unwrap();
    let expected = r#"<html>
<head>
<title>vacation/b</title>
<style type="text/css">
body {background-color: #000000; color: #FFFFFF}
a:link {color: #8080FF}
a:visited {color: #C080FF}
input[type="text"] {
background-color: #404040; color: #FFFFFF;
border: thin solid #808080
}
</style>
</head>
<body>
<center><h3>vacation/b</h3></center>
<form action="b.jpg.html" method="get">
<table align="center" valign="center">
<tr>
<td colspan="3" align="center">
<a href="a.jpg.html?w=800&h=600">previous</a>
<a href="c.jpg.html?w=800&h=600">next</a>
<a href=".?w=800&h=600">up</a>
<a href="b.jpg">original</a>
</td>
</tr>
<tr>
<td colspan="3" align="center">
<img src="b.jpg?w=800&h=600"/>
</td>
</tr>
<tr>
<td>Width <input type="text" name="w" value="800"/></td>
<td>Height <input type="text" name="h" value="600"/></td>
<td><input type="submit" value="Change size"/></td>
</tr>
</table>
</form>
</body>
</html>"#;
    assert_eq!(page, expected);
}

#[test]
fn frame_links_wrap_around() {
    let a = album(&["a.jpg", "b.jpg", "README.txt"]);
    let size = Params { w: None, h: None }.get_dimensions();
    let page = PhotoServer::frame("vacation", "a.jpg", &a, size).unwrap();
    assert!(page.contains(r#"<a href="b.jpg.html?w=800&h=600">next</a>"#));
    assert!(page.contains(r#"<a href="b.jpg.html?w=800&h=600">previous</a>"#));
    let page = PhotoServer::frame("vacation", "b.jpg", &a, Dimensions { w: 2048, h: 7 }).unwrap();
    assert!(page.contains(r#"<a href="a.jpg.html?w=2048&h=7">next</a>"#));
    assert!(page.contains(r#"<a href="a.jpg.html?w=2048&h=7">previous</a>"#));
    assert!(page.contains(r#"<img src="b.jpg?w=2048&h=7"/>"#));
    assert!(page.contains(r#"name="w" value="2048""#));
    assert!(page.contains(r#"name="h" value="7""#));
}

#[test]
fn frame_keeps_the_case_of_the_extension() {
    let a = album(&["Photo.JPG"]);
    let page = PhotoServer::frame("d", "Photo.JPG", &a, Dimensions { w: 10, h: 10 }).unwrap();
    assert!(page.contains("<title>d/Photo</title>"));
    assert!(page.contains(r#"<form action="Photo.JPG.html" method="get">"#));
    assert!(page.contains(r#"<a href="Photo.JPG.html?w=10&h=10">previous</a>"#));
    assert!(page.contains(r#"<a href="Photo.JPG">original</a>"#));
}

#[test]
fn frame_of_a_missing_picture_is_not_found() {
    let a = album(&["a.jpg", "notes.txt"]);
    let size = Dimensions { w: 800, h: 600 };
    assert!(matches!(PhotoServer::frame("d", "b.jpg", &a, size), Err(HttpError::NotFound)));
    assert!(matches!(PhotoServer::frame("d", "notes.txt", &a, size), Err(HttpError::NotFound)));
    assert!(matches!(PhotoServer::frame("d", "a.JPG", &a, size), Err(HttpError::NotFound)));
    assert!(matches!(PhotoServer::frame("d", "a.jpg", &album(&[]), size), Err(HttpError::NotFound)));
}
