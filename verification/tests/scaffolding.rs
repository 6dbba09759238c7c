use elmio_cli::project::{
    add_page_to_lib, page_file_rel_path, replace_page_name, replace_placeholders, validate_name,
    Error, PageName, Template, TemplateInfo,
};

#[test]
fn page_names_canonicalize() {
    assert_eq!(PageName::new("HomePage").snake_case(), "home_page");
    assert_eq!(PageName::new("home_page").snake_case(), "home_page");
    assert_eq!(PageName::new("login").snake_case(), "login_page");
    assert_eq!(PageName::new("sign up").snake_case(), "sign_up_page");
}

#[test]
fn page_name_casings() {
    let page = PageName::new("user settings");
    assert_eq!(page.snake_case(), "user_settings_page");
    assert_eq!(page.pascal_case(), "UserSettingsPage");
    assert_eq!(page.camel_case(), "userSettingsPage");
    assert_eq!(page.title_case(), "User Settings Page");
}

#[test]
fn template_info_values() {
    let info = Template::CounterTailwind.info();
    assert_eq!(
        info.url,
        "https://github.com/xosnrdev/elmio-templates/archive/refs/heads/master.zip"
    );
    assert_eq!(info.path, "counter-tailwind");
    assert_eq!(info.placeholder, "counterapp");
    assert_eq!(info.default_page_name.snake_case(), "home_page");

    let custom = Template::Custom(TemplateInfo {
        url: String::from("https://example.test/t.zip"),
        path: String::from("t"),
        placeholder: String::from("ph"),
        default_page_name: PageName::new("start"),
    });
    let info = custom.info();
    assert_eq!(info.url, "https://example.test/t.zip");
    assert_eq!(info.default_page_name.snake_case(), "start_page");
}

#[test]
fn project_names_validate() {
    assert!(validate_name("my_app").is_ok());
    assert!(validate_name("a").is_ok());
    assert!(matches!(validate_name(""), Err(Error::InvalidProjectName)));
    assert!(matches!(validate_name("My_app"), Err(Error::InvalidProjectName)));
    assert!(matches!(validate_name("1app"), Err(Error::InvalidProjectName)));
    assert!(matches!(validate_name("_app"), Err(Error::InvalidProjectName)));
    assert!(matches!(validate_name("my-app"), Err(Error::InvalidProjectName)));
}

#[test]
fn page_rename_covers_casings() {
    let from = PageName::new("home_page");
    let to = PageName::new("about_page");
    let content = "mod home_page; struct HomePage; let homePage = 1; // Home Page";
    assert_eq!(
        replace_page_name(content, &from, &to),
        "mod about_page; struct AboutPage; let aboutPage = 1; // About Page"
    );
}

#[test]
fn lib_gains_page_module_once() {
    let page = PageName::new("about");
    assert_eq!(add_page_to_lib("pub mod home_page;\n", &page), "pub mod home_page;\npub mod about_page;\n");
    assert_eq!(add_page_to_lib("pub mod home_page;", &page), "pub mod home_page;\npub mod about_page;\n");
    let already = "pub mod about_page;\n";
    assert_eq!(add_page_to_lib(already, &page), already);
    assert_eq!(add_page_to_lib("", &page), "\npub mod about_page;\n");
}

#[test]
fn placeholders_replace_in_contents() {
    let info = Template::CounterTailwind.info();
    let contents = vec![
        String::from("name = \"counterapp_core\""),
        String::from("no placeholder here"),
    ];
    let replaced = replace_placeholders("shop", &info, &contents);
    assert_eq!(replaced, vec!["name = \"shop_core\"", "no placeholder here"]);
}

#[test]
fn page_file_paths() {
    let page = PageName::new("about");
    assert_eq!(page_file_rel_path(&page, "rs"), "src/about_page.rs");
    assert_eq!(page_file_rel_path(&page, "ts"), "src/about_page.ts");
}
