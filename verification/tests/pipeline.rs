use vsd::client::{
    check_cookies, check_headers, client_config, pair_up, proxy_address_parser,
    proxy_address_validator, ClientError, ProxyConfig,
};
use vsd::input::{classify, InputType};
use vsd::links::{chosen_link, enumerate_links, no_playlist_message, select_candidate, Selection};
use vsd::mux::{find_ffmpeg, muxer_binary_name, output_parser, search_path_entries, OutputError};
use vsd::naming::{alternative_name, tempfile_name, unused_name};
use vsd::quality::Quality;
use vsd::save::{resolve, Save, TaskError, UrlBase, UrlError};

fn options(input: &str) -> Save {
    Save {
        input: input.to_string(),
        baseurl: None,
        directory: None,
        key: Vec::new(),
        one_stream: false,
        output: None,
        raw_prompts: false,
        resume: false,
        retry_count: 15,
        threads: 5,
        prefer_audio_lang: None,
        prefer_subs_lang: None,
        quality: Quality::Highest,
        header: Vec::new(),
        proxy_address: None,
        enable_cookies: false,
        cookie: None,
        set_cookie: Vec::new(),
        user_agent: "agent".to_string(),
    }
}

fn strings(items: &[&str]) -> Vec<String> {
    items.iter().map(|s| s.to_string()).collect()
}

#[test]
fn playlist_gets_ts() {
    assert_eq!(tempfile_name("https://example.com/video/index.m3u8"), "index.ts");
    assert_eq!(tempfile_name("video.m3u8"), "video.ts");
    assert_eq!(tempfile_name("a.b.m3u"), "a.b.ts");
    assert_eq!(tempfile_name(".m3u8"), ".m3u8.ts");
}

#[test]
fn compound_suffix_only_loses_its_tail() {
    assert_eq!(tempfile_name("movie.ts.m3u8"), "movie.ts");
    assert_eq!(options("https://h/p/movie.ts.m3u8?k=v").tempfile(), "movie.ts");
}

#[test]
fn manifest_gets_m4s() {
    assert_eq!(tempfile_name("manifest.mpd?token=1"), "manifest.m4s");
    assert_eq!(tempfile_name("dir/some.xml"), "some.m4s");
}

#[test]
fn other_names_are_sanitized_and_get_mp4() {
    assert_eq!(tempfile_name("https://example.com/watch"), "watch.mp4");
    assert_eq!(tempfile_name("a<b>c:d\"e\\f|g"), "a-b-c-d-e-f-g.mp4");
    assert_eq!(tempfile_name("clip.mov"), "clip.mp4");
    assert_eq!(tempfile_name("noext"), "noext.mp4");
    assert_eq!(tempfile_name("https://example.com/"), "");
    assert_eq!(tempfile_name(""), "");
    assert_eq!(tempfile_name(".."), "..");
    assert_eq!(tempfile_name(".hidden"), ".hidden.mp4");
}

#[test]
fn taken_names_are_numbered() {
    assert_eq!(alternative_name("clip.mp4", 1), "clip (1).mp4");
    assert_eq!(alternative_name("clip.mp4", 2), "clip (2).mp4");
    assert_eq!(alternative_name("clip.mp4", 10), "clip (10).mp4");
    assert_eq!(alternative_name("a.b.ts", 120), "a.b (120).ts");
    assert_eq!(alternative_name("noext", 3), "noext (3)");
    assert_eq!(alternative_name("clip.mp4", 0), "clip (0).mp4");
}

#[test]
fn inputs_are_classified() {
    assert_eq!(classify("https://example.com/video/index.m3u8"), InputType::HlsUrl);
    assert_eq!(classify("./index.m3u8"), InputType::HlsLocalFile);
    assert_eq!(classify("http://h/a.m3u?x=1"), InputType::HlsUrl);
    assert_eq!(classify("https://h/a.mpd"), InputType::DashUrl);
    assert_eq!(classify("https://h/a.xml?b.m3u8"), InputType::DashUrl);
    assert_eq!(classify("https://h/page"), InputType::Website);
    assert_eq!(classify("a.mpd"), InputType::DashLocalFile);
    assert_eq!(classify("a.xml"), InputType::DashLocalFile);
    assert_eq!(classify("a.txt"), InputType::LocalFile);
    assert_eq!(classify(""), InputType::LocalFile);
    assert_eq!(options("https://h/page").input_type(), InputType::Website);
    assert!(options("https://h/page").needs_scrape());
    assert!(!options("page").needs_scrape());
}

#[test]
fn input_type_predicates() {
    assert!(InputType::Website.is_website());
    assert!(!InputType::LocalFile.is_website());
    assert!(InputType::HlsUrl.is_hls() && InputType::HlsLocalFile.is_hls());
    assert!(!InputType::DashUrl.is_hls());
    assert!(InputType::DashUrl.is_dash() && InputType::DashLocalFile.is_dash());
    assert!(!InputType::HlsUrl.is_dash());
}

#[test]
fn one_candidate_is_taken() {
    let links = strings(&["https://h/a.m3u8"]);
    assert_eq!(
        select_candidate("https://h/page", &links),
        Selection::Single("https://h/a.m3u8".to_string())
    );
}

#[test]
fn no_candidate_fails() {
    assert_eq!(
        select_candidate("https://h/page", &Vec::new()),
        Selection::NoPlaylist("https://h/page".to_string())
    );
    assert_eq!(
        no_playlist_message("https://h/page"),
        "No links found on website source: https://h/page"
    );
}

#[test]
fn several_candidates_are_asked_about() {
    let links = strings(&["https://h/a.m3u8", "https://h/b.mpd", "https://h/c.m3u8"]);
    assert_eq!(
        select_candidate("https://h/page", &links),
        Selection::Prompt(strings(&[
            " 1) https://h/a.m3u8",
            " 2) https://h/b.mpd",
            " 3) https://h/c.m3u8"
        ]))
    );
    assert_eq!(chosen_link(&links, 1), Some("https://h/b.mpd".to_string()));
    assert_eq!(chosen_link(&links, 3), None);
    let many = strings(&["a"; 11]);
    let lines = enumerate_links(&many);
    assert_eq!(lines[8], " 9) a");
    assert_eq!(lines[9], "10) a");
    assert_eq!(lines[10], "11) a");
}

#[test]
fn output_needs_a_muxer() {
    assert_eq!(output_parser("out.mkv", &None), Err(OutputError::MuxerNotFound));
    assert_eq!(output_parser("out.mkv", &Some("/usr/bin".to_string())), Ok("out.mkv".to_string()));
    assert!(OutputError::MuxerNotFound.message().contains("ffmpeg"));
}

#[test]
fn search_path_is_split() {
    assert_eq!(search_path_entries("/bin:/usr/bin", false), strings(&["/bin", "/usr/bin"]));
    assert_eq!(search_path_entries("/bin::x:", false), strings(&["/bin", "", "x", ""]));
    assert_eq!(search_path_entries("", false), strings(&[""]));
    assert_eq!(search_path_entries("C:\\a;D:\\b", true), strings(&["C:\\a", "D:\\b"]));
    assert_eq!(muxer_binary_name(true), "ffmpeg.exe");
    assert_eq!(muxer_binary_name(false), "ffmpeg");
    let dirs = strings(&["/a", "/b", "/c"]);
    assert_eq!(find_ffmpeg(&dirs, &vec![false, true, true]), Some("/b".to_string()));
    assert_eq!(find_ffmpeg(&dirs, &vec![false, false, false]), None);
    assert_eq!(find_ffmpeg(&dirs, &vec![false]), None);
    assert_eq!(find_ffmpeg(&dirs, &vec![true, true, true, true]), Some("/a".to_string()));
}

#[test]
fn headers_are_checked_in_pairs() {
    assert_eq!(check_headers(&strings(&["accept", "text/html", "x-a", "b"])), Ok(()));
    assert_eq!(check_headers(&strings(&["accept"])), Err(ClientError::UnpairedHeader));
    assert_eq!(
        check_headers(&strings(&["accept", "x", "bad name", "v"])),
        Err(ClientError::InvalidHeaderName(1))
    );
    assert_eq!(
        check_headers(&strings(&["accept", "a\nb"])),
        Err(ClientError::InvalidHeaderValue(0))
    );
    assert_eq!(check_headers(&strings(&["x-a", "caf\u{e9}\t ~"])), Ok(()));
    assert_eq!(check_headers(&strings(&["x-a", ""])), Ok(()));
    assert_eq!(
        check_headers(&strings(&["x-a", "a\u{7f}"])),
        Err(ClientError::InvalidHeaderValue(0))
    );
    assert_eq!(
        check_headers(&strings(&["x-a", "a\u{1f}"])),
        Err(ClientError::InvalidHeaderValue(0))
    );
    assert_eq!(check_headers(&strings(&["", "v"])), Err(ClientError::InvalidHeaderName(0)));
    assert_eq!(pair_up(&strings(&["a"])), Vec::new());
    assert_eq!(
        pair_up(&strings(&["a", "b", "c", "d"])),
        vec![("a".to_string(), "b".to_string()), ("c".to_string(), "d".to_string())]
    );
}

#[test]
fn proxies_are_read_by_scheme() {
    assert_eq!(
        proxy_address_parser("http://127.0.0.1:8080"),
        Ok(ProxyConfig::Http("http://127.0.0.1:8080".to_string()))
    );
    assert_eq!(
        proxy_address_parser("https://proxy.example:4545"),
        Ok(ProxyConfig::Https("https://proxy.example:4545".to_string()))
    );
    assert_eq!(
        proxy_address_parser("socks5://127.0.0.1:1"),
        Err(ClientError::UnsupportedProxyScheme)
    );
    assert_eq!(proxy_address_parser("http://"), Err(ClientError::InvalidProxy));
    assert_eq!(proxy_address_parser("https://"), Err(ClientError::InvalidProxy));
    assert_eq!(proxy_address_validator("http://x"), Ok(()));
    assert_eq!(proxy_address_validator("https://x"), Ok(()));
    assert_eq!(proxy_address_validator("ftp://x"), Err(ClientError::UnsupportedProxyScheme));
    assert_eq!(
        ClientError::UnsupportedProxyScheme.message(),
        "Proxy address should start with `http(s)://` only"
    );
    assert_eq!(ClientError::InvalidProxy.message(), "couldn't parse proxy address");
    assert_eq!(ClientError::InvalidHeaderName(3).message(), "invalid header name");
    assert_eq!(ClientError::InvalidHeaderValue(0).message(), "invalid header value");
    assert_eq!(ClientError::UnpairedHeader.message(), "a header needs a name and a value");
    assert_eq!(ClientError::UnpairedCookie.message(), "a cookie needs the url it came from");
    assert_eq!(ClientError::InvalidCookieUrl(1).message(), "invalid cookie url");
}

#[test]
fn cookies_need_an_origin() {
    assert_eq!(check_cookies(&strings(&["foo=bar; Domain=yolo.local", "https://yolo.local"])), Ok(()));
    assert_eq!(check_cookies(&strings(&["foo=bar"])), Err(ClientError::UnpairedCookie));
    assert_eq!(
        check_cookies(&strings(&["a=b", "https://ok.local", "c=d", "not a url"])),
        Err(ClientError::InvalidCookieUrl(1))
    );
}

#[test]
fn client_options_are_assembled() {
    let c = client_config(
        "agent",
        &strings(&["accept", "text/html"]),
        &Some("http://127.0.0.1:8080".to_string()),
        false,
        &None,
        &strings(&["foo=bar", "https://yolo.local"]),
    )
    .unwrap();
    assert_eq!(c.user_agent, "agent");
    assert_eq!(c.headers, vec![("accept".to_string(), "text/html".to_string())]);
    assert_eq!(c.proxy, Some(ProxyConfig::Http("http://127.0.0.1:8080".to_string())));
    assert!(c.cookie_store);
    assert_eq!(c.seed_cookie, None);
    assert_eq!(c.seed_cookies, vec![("foo=bar".to_string(), "https://yolo.local".to_string())]);

    let plain = options("x").client().unwrap();
    assert!(!plain.cookie_store);
    assert_eq!(plain.proxy, None);
    assert!(plain.headers.is_empty());

    let mut with_cookie = options("x");
    with_cookie.cookie = Some("a=b".to_string());
    assert!(with_cookie.client().unwrap().cookie_store);

    let mut bad = options("x");
    bad.header = strings(&["accept"]);
    bad.proxy_address = Some("ftp://x".to_string());
    assert_eq!(bad.client(), Err(ClientError::UnpairedHeader));
    bad.header = Vec::new();
    assert_eq!(bad.client(), Err(ClientError::UnsupportedProxyScheme));
}

#[test]
fn segment_addresses_are_resolved() {
    let mut s = options("https://example.net/a/b.m3u8");
    assert_eq!(s.get_url("http://eve.com/b"), Ok("http://eve.com/b".to_string()));
    assert_eq!(s.get_url("c.ts"), Ok("https://example.net/a/c.ts".to_string()));
    s.baseurl = Some("https://base.net/x/".to_string());
    assert_eq!(s.get_url("c.ts"), Ok("https://base.net/x/c.ts".to_string()));
    assert_eq!(s.url_base("c.ts"), UrlBase::Base("https://base.net/x/".to_string()));
    assert_eq!(s.url_base("https://q"), UrlBase::Absolute);
    let local = options("local.m3u8");
    assert_eq!(local.url_base("c.ts"), UrlBase::Missing);
    assert_eq!(local.get_url("c.ts"), Err(UrlError::MissingBaseUrl));
    assert_eq!(resolve(&UrlBase::Base("not a url".to_string()), "c.ts"), Err(UrlError::InvalidUrl));
    assert_eq!(
        UrlError::MissingBaseUrl.message(),
        "Non HTTP input should have --baseurl set explicitly."
    );
    assert_eq!(UrlError::InvalidUrl.message(), "couldn't build the segment url");
}

#[test]
fn task_takes_the_link_that_was_found() {
    let s = options("https://h/page");
    let c = s.client().unwrap();
    let t = s
        .to_download_state(c.clone(), Some("https://h/v/master.m3u8?sig=1".to_string()))
        .unwrap();
    assert_eq!(t.args.input, "https://h/v/master.m3u8?sig=1");
    assert_eq!(t.input_type, InputType::HlsUrl);
    assert_eq!(t.tempfile, "master.ts");
    assert_eq!(t.client, c);
    assert_eq!(t.args.threads, 5);
    assert_eq!(t.args.retry_count, 15);
    assert!(!t.dash);

    let u = options("video.mpd");
    let c = u.client().unwrap();
    let t = u.to_download_state(c, None).unwrap();
    assert_eq!(t.args.input, "video.mpd");
    assert_eq!(t.input_type, InputType::DashLocalFile);
    assert_eq!(t.tempfile, "video.m4s");
}

#[test]
fn web_page_without_link_gives_no_task() {
    let s = options("https://h/page");
    let c = s.client().unwrap();
    let r = s.to_download_state(c, None);
    assert_eq!(r.err(), Some(TaskError::NoLink));
    assert_eq!(TaskError::NoLink.message(), "no playlist link was found for the website");
}

#[test]
fn link_is_only_taken_for_a_web_page() {
    let s = options("https://h/a.m3u8");
    let c = s.client().unwrap();
    let t = s.to_download_state(c, Some("https://h/b.mpd".to_string())).unwrap();
    assert_eq!(t.args.input, "https://h/a.m3u8");
    assert_eq!(t.input_type, InputType::HlsUrl);
    assert_eq!(t.tempfile, "a.ts");
}

#[test]
fn links_are_scraped_once_each() {
    let body = "<a href=\"https://h/a.m3u8?x=1\">a</a>\n<video src='https://h/b.mpd'></video> \
                https://h/a.m3u8?x=1 (http://h/c.xml) https://h/page.html ./d.m3u8 \
                url(https://h/e.ts.m3u8)";
    assert_eq!(
        vsd::links::find_hls_dash_links(body),
        strings(&["https://h/a.m3u8?x=1", "https://h/b.mpd", "http://h/c.xml", "https://h/e.ts.m3u8"])
    );
    assert_eq!(vsd::links::find_hls_dash_links("nothing here"), Vec::<String>::new());
    assert_eq!(vsd::links::find_hls_dash_links(""), Vec::<String>::new());
    assert_eq!(vsd::links::split_tokens("a b\"c"), strings(&["a", "b", "c"]));
    assert!(vsd::links::looks_like_link("https://h/a.m3u"));
    assert!(!vsd::links::looks_like_link("a.m3u"));
}

#[test]
fn first_free_name_is_taken() {
    assert_eq!(unused_name("clip.mp4", &Vec::new(), false), "clip.mp4");
    assert_eq!(unused_name("clip.mp4", &strings(&["clip.mp4"]), false), "clip (1).mp4");
    assert_eq!(
        unused_name("clip.mp4", &strings(&["clip (1).mp4", "clip.mp4"]), false),
        "clip (2).mp4"
    );
    assert_eq!(
        unused_name("clip.mp4", &strings(&["clip.mp4", "clip (2).mp4"]), false),
        "clip (1).mp4"
    );
    assert_eq!(
        unused_name("clip.mp4", &strings(&["clip.mp4", "clip.mp4", "clip (1).mp4"]), false),
        "clip (2).mp4"
    );
    assert_eq!(unused_name("clip.mp4", &strings(&["clip.mp4"]), true), "clip.mp4");
    let mut taken = strings(&["clip.mp4"]);
    for n in 1..12 {
        taken.push(format!("clip ({}).mp4", n));
    }
    assert_eq!(unused_name("clip.mp4", &taken, false), "clip (12).mp4");
    let mut s = options("https://h/clip");
    assert_eq!(s.free_tempfile(&strings(&["clip.mp4"])), "clip (1).mp4");
    s.resume = true;
    assert_eq!(s.free_tempfile(&strings(&["clip.mp4"])), "clip.mp4");
}
