//! Translation labels: the text bundles the user interface shows, loaded per
//! language, with the built-in English bundle as the default.

use vstd::prelude::*;

verus! {

use vstd::string::StringExecFns;

/// Labels of transient status messages.
#[derive(Clone, Debug, PartialEq)]
pub struct MessageLabels {
    pub loading_title: String,
    pub error_title: String,
}

/// Labels of error notifications.
#[derive(Clone, Debug, PartialEq)]
pub struct ErrorLabels {
    pub loading_data: String,
    pub store_secret: String,
}

/// Labels of the lifetime choices.
#[derive(Clone, Debug, PartialEq)]
pub struct LifetimeLabels {
    pub one_hour: String,
    pub two_hours: String,
    pub one_day: String,
    pub one_time_download: String,
    pub one_time_download_precaution_message: String,
}

/// Labels of the message-composing page.
#[derive(Clone, Debug, PartialEq)]
pub struct HomePageLabels {
    pub title: String,
    pub message_placeholder: String,
    pub secret_lifetime_title: String,
    pub lifetime: LifetimeLabels,
    pub encrypt_message_button: String,
    pub secret_url_title: String,
    pub copy_button: String,
}

/// Labels of the secret-link page.
#[derive(Clone, Debug, PartialEq)]
pub struct SecretUrlPageLabels {
    pub title: String,
    pub one_time_download_precaution_message: String,
}

/// Labels of the page shown when a secret cannot be found.
#[derive(Clone, Debug, PartialEq)]
pub struct SecretNotFoundPageLabels {
    pub title: String,
    pub possible_reasons_text: String,
    pub possible_reasons_items: Vec<String>,
}

/// Labels of the page footer.
#[derive(Clone, Debug, PartialEq)]
pub struct FooterLabels {
    pub how_it_works: String,
}

/// One language's label bundle.
#[derive(Clone, Debug, PartialEq)]
pub struct Locale {
    pub id: String,
    pub messages: MessageLabels,
    pub errors: ErrorLabels,
    pub home_page: HomePageLabels,
    pub secret_url_page: SecretUrlPageLabels,
    pub secret_not_found_page: SecretNotFoundPageLabels,
    pub footer_labels: FooterLabels,
}

impl Default for Locale {
    /// The built-in English bundle.
    fn default() -> (r: Locale)
        ensures
            r.id@ == "en"@,
            r.messages.loading_title@ == "Loading.."@,
            r.messages.error_title@ == "Error"@,
            r.errors.loading_data@ == "Couldn't load data"@,
            r.errors.store_secret@ == "Store secret error"@,
            r.home_page.title@ == "Message"@,
            r.home_page.message_placeholder@ == "The data will be encrypted in the browser"@,
            r.home_page.secret_lifetime_title@ == "Secret lifetime"@,
            r.home_page.lifetime.one_hour@ == "One hour"@,
            r.home_page.lifetime.two_hours@ == "Two hours"@,
            r.home_page.lifetime.one_day@ == "One day"@,
            r.home_page.lifetime.one_time_download@ == "One time download"@,
            r.home_page.lifetime.one_time_download_precaution_message@
                == "This link is for one-time use only, so don't try to open it or the secret will disappear."@,
            r.home_page.encrypt_message_button@ == "Encrypt message"@,
            r.home_page.secret_url_title@ == "Secret URL"@,
            r.home_page.copy_button@ == "Copy"@,
            r.secret_url_page.title@ == "Message"@,
            r.secret_url_page.one_time_download_precaution_message@
                == "This link is for one-time use only, so don't try to open it or the secret will disappear."@,
            r.secret_not_found_page.title@ == "Secret wasn't found"@,
            r.secret_not_found_page.possible_reasons_text@ == "Possible reasons"@,
            r.secret_not_found_page.possible_reasons_items@.len() == 2,
            r.secret_not_found_page.possible_reasons_items@[0]@ == "Link has been expired"@,
            r.secret_not_found_page.possible_reasons_items@[1]@
                == "It was one-time link and someone opened it already"@,
            r.footer_labels.how_it_works@ == "FAQ"@,
    {
        let mut possible_reasons_items: Vec<String> = Vec::new();
        possible_reasons_items.push(String::from_str("Link has been expired"));
        possible_reasons_items.push(
            String::from_str("It was one-time link and someone opened it already"),
        );
        Locale {
            id: String::from_str("en"),
            messages: MessageLabels {
                loading_title: String::from_str("Loading.."),
                error_title: String::from_str("Error"),
            },
            errors: ErrorLabels {
                loading_data: String::from_str("Couldn't load data"),
                store_secret: String::from_str("Store secret error"),
            },
            home_page: HomePageLabels {
                title: String::from_str("Message"),
                message_placeholder: String::from_str(
                    "The data will be encrypted in the browser",
                ),
                secret_lifetime_title: String::from_str("Secret lifetime"),
                lifetime: LifetimeLabels {
                    one_hour: String::from_str("One hour"),
                    two_hours: String::from_str("Two hours"),
                    one_day: String::from_str("One day"),
                    one_time_download: String::from_str("One time download"),
                    one_time_download_precaution_message: String::from_str(
                        "This link is for one-time use only, so don't try to open it or the secret will disappear.",
                    ),
                },
                encrypt_message_button: String::from_str("Encrypt message"),
                secret_url_title: String::from_str("Secret URL"),
                copy_button: String::from_str("Copy"),
            },
            secret_url_page: SecretUrlPageLabels {
                title: String::from_str("Message"),
                one_time_download_precaution_message: String::from_str(
                    "This link is for one-time use only, so don't try to open it or the secret will disappear.",
                ),
            },
            secret_not_found_page: SecretNotFoundPageLabels {
                title: String::from_str("Secret wasn't found"),
                possible_reasons_text: String::from_str("Possible reasons"),
                possible_reasons_items,
            },
            footer_labels: FooterLabels { how_it_works: String::from_str("FAQ") },
        }
    }
}

} // verus!
