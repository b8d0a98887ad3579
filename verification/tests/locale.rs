use pw_core::locale::Locale;

#[test]
fn default_locale_is_the_english_bundle() {
    let locale = Locale::default();
    assert_eq!(locale.id, "en");
    assert_eq!(locale.messages.loading_title, "Loading..");
    assert_eq!(locale.messages.error_title, "Error");
    assert_eq!(locale.errors.loading_data, "Couldn't load data");
    assert_eq!(locale.errors.store_secret, "Store secret error");
    assert_eq!(locale.home_page.title, "Message");
    assert_eq!(locale.home_page.lifetime.one_hour, "One hour");
    assert_eq!(locale.home_page.lifetime.two_hours, "Two hours");
    assert_eq!(locale.home_page.lifetime.one_day, "One day");
    assert_eq!(locale.home_page.encrypt_message_button, "Encrypt message");
    assert_eq!(locale.home_page.secret_url_title, "Secret URL");
    assert_eq!(locale.home_page.copy_button, "Copy");
    assert_eq!(locale.secret_url_page.title, "Message");
    assert_eq!(locale.secret_not_found_page.title, "Secret wasn't found");
    assert_eq!(
        locale.secret_not_found_page.possible_reasons_items,
        vec![
            "Link has been expired".to_string(),
            "It was one-time link and someone opened it already".to_string()
        ]
    );
    assert_eq!(locale.footer_labels.how_it_works, "FAQ");
}
