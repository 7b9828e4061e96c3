use vstd::prelude::*;

verus! {

pub open spec fn english_greeting_spec() -> Seq<char> {
    "Hello! Welcome to Carik Bot \u{1f44b}\n\nI'm your AI assistant. How can I help you today?\n\n/help - Get help\n/about - About Carik\n/ping - Ping\n/settings - Your settings\n/quote - Random quote"@
}

pub open spec fn indonesian_greeting_spec() -> Seq<char> {
    "Halo! Selamat datang di Carik Bot \u{1f44b}\n\nSaya asisten AI Anda. Ada yang bisa saya bantu?\n\n/help - Bantuan\n/about - Tentang Carik\n/ping - Ping\n/settings - Pengaturan Anda\n/quote - Kutipan acak"@
}

pub open spec fn javanese_greeting_spec(bot_username: Seq<char>) -> Seq<char> {
    "Sugeng rawuh Pak Lurah Ing "@ + bot_username
        + "\n\nKulo niku Carik AI Assistant.\nNyuwun sewu, kepareng nepangaken.\nPanjenenganipun inggih punika tamu ing wewaton iki.\nMonggo kerso dipunbotenaken. Sendiko dawuh!\n\n/help - Pitulungan\n/about - Nepangaken Carik\n/ping - Mriki Piyambak\n/clear - Ngresikaken Obrolan\n/quote - UnggahQuote"@
}

/// The welcome text by language tag: "jv" and "id" have their own, any
/// other tag gets the English one.
pub open spec fn greeting_spec(bot_username: Seq<char>, lang: Seq<char>) -> Seq<char> {
    if lang == "jv"@ {
        javanese_greeting_spec(bot_username)
    } else if lang == "id"@ {
        indonesian_greeting_spec()
    } else {
        english_greeting_spec()
    }
}

pub fn generate_english_greeting(_bot_username: &str) -> (r: String)
    ensures
        r@ == english_greeting_spec(),
{
    String::from_str(
        "Hello! Welcome to Carik Bot \u{1f44b}\n\nI'm your AI assistant. How can I help you today?\n\n/help - Get help\n/about - About Carik\n/ping - Ping\n/settings - Your settings\n/quote - Random quote",
    )
}

pub fn generate_indonesian_greeting(_bot_username: &str) -> (r: String)
    ensures
        r@ == indonesian_greeting_spec(),
{
    String::from_str(
        "Halo! Selamat datang di Carik Bot \u{1f44b}\n\nSaya asisten AI Anda. Ada yang bisa saya bantu?\n\n/help - Bantuan\n/about - Tentang Carik\n/ping - Ping\n/settings - Pengaturan Anda\n/quote - Kutipan acak",
    )
}

pub fn generate_javanese_greeting(bot_username: &str) -> (r: String)
    ensures
        r@ == javanese_greeting_spec(bot_username@),
{
    let mut r = String::from_str("Sugeng rawuh Pak Lurah Ing ");
    r.append(bot_username);
    r.append(
        "\n\nKulo niku Carik AI Assistant.\nNyuwun sewu, kepareng nepangaken.\nPanjenenganipun inggih punika tamu ing wewaton iki.\nMonggo kerso dipunbotenaken. Sendiko dawuh!\n\n/help - Pitulungan\n/about - Nepangaken Carik\n/ping - Mriki Piyambak\n/clear - Ngresikaken Obrolan\n/quote - UnggahQuote",
    );
    r
}

/// The welcome message in the user's configured language.
pub fn generate_greeting(bot_username: &str, lang: &str) -> (r: String)
    ensures
        r@ == greeting_spec(bot_username@, lang@),
{
    let lv = crate::text::chars_of(lang);
    let jv = crate::text::chars_of("jv");
    let id = crate::text::chars_of("id");
    if crate::text::eq_chars(&lv, &jv) {
        generate_javanese_greeting(bot_username)
    } else if crate::text::eq_chars(&lv, &id) {
        generate_indonesian_greeting(bot_username)
    } else {
        generate_english_greeting(bot_username)
    }
}

} // verus!
