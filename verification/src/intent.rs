use vstd::prelude::*;
use crate::llm::LLMMessage;
use crate::text::{self, contains_sub, lower};

verus! {

// ---------------------------------------------------------------------------
// Keyword tables
// ---------------------------------------------------------------------------

/// Words whose presence marks a coding request.
pub open spec fn coding_keywords() -> Seq<Seq<char>> {
    seq!["code"@, "write"@, "create"@, "build"@, "make"@, "debug"@, "fix"@, "program"@, "script"@, "function"@, "class"@, "algorithm"@, "implement"@, "develop"@, "refactor"@, "optimize"@, "python"@, "javascript"@, "rust"@, "java"@, "golang"@, "typescript"@, "app"@, "application"@, "website"@, "web"@, "api"@, "database"@]
}

/// Words whose presence marks a news request.
pub open spec fn rss_keywords() -> Seq<Seq<char>> {
    seq!["news"@, "headlines"@, "latest"@, "feed"@, "rss"@, "berita"@, "headline"@, "update"@, "breaking"@]
}

/// Keyword-to-skill rows, in detection order.
pub open spec fn skill_rows() -> Seq<(Seq<char>, Seq<char>)> {
    seq![("weather"@, "weather"@), ("cuaca"@, "weather"@), ("github"@, "github"@), ("git"@, "github"@), ("spotify"@, "spotify"@), ("music"@, "spotify"@), ("weather"@, "weather"@), ("forecast"@, "weather"@), ("obsidian"@, "obsidian"@), ("note"@, "obsidian"@)]
}

/// Keyword-to-feed rows for named news sources, in detection order.
pub open spec fn source_rows() -> Seq<(Seq<char>, Seq<char>)> {
    seq![("yahoo"@, "https://news.yahoo.com/rss/topstories"@), ("yahoo news"@, "https://news.yahoo.com/rss/topstories"@), ("google"@, "https://news.google.com/rss"@), ("google news"@, "https://news.google.com/rss"@), ("bbc"@, "http://feeds.bbci.co.uk/news/rss.xml"@), ("bbc news"@, "http://feeds.bbci.co.uk/news/rss.xml"@), ("techcrunch"@, "https://techcrunch.com/feed/"@), ("hn"@, "https://hnrss.org/newest"@), ("hacker news"@, "https://hnrss.org/newest"@), ("hackernews"@, "https://hnrss.org/newest"@), ("cna"@, "https://www.channelnewsasia.com/rss"@), ("channel newsasia"@, "https://www.channelnewsasia.com/rss"@), ("channelnewsasia"@, "https://www.channelnewsasia.com/rss"@), ("reuters"@, "https://www.reutersagency.com/feed/"@), ("bbc world"@, "http://feeds.bbci.co.uk/news/world/rss.xml"@)]
}

pub open spec fn topic_rows_1() -> Seq<(Seq<char>, Seq<char>, Seq<char>)> {
    seq![("argentina"@, "Argentina"@, "https://www.batimes.com.ar/feed"@), ("argentine"@, "Argentina"@, "https://www.batimes.com.ar/feed"@), ("australia"@, "Australia"@, "https://www.abc.net.au/news/feed/45910/rss.xml"@), ("australian"@, "Australia"@, "https://www.abc.net.au/news/feed/45910/rss.xml"@), ("brazil"@, "Brazil"@, "https://agenciabrasil.ebc.com.br/rss/ultimasnoticias/feed.xml"@), ("brazilian"@, "Brazil"@, "https://agenciabrasil.ebc.com.br/rss/ultimasnoticias/feed.xml"@), ("canada"@, "Canada"@, "https://www.cbc.ca/cmlink/rss-topstories"@), ("canadian"@, "Canada"@, "https://www.cbc.ca/cmlink/rss-topstories"@), ("china"@, "China"@, "https://www.scmp.com/rss/91/feed"@), ("chinese"@, "China"@, "https://www.scmp.com/rss/91/feed"@), ("france"@, "France"@, "https://www.france24.com/en/rss"@), ("french"@, "France"@, "https://www.france24.com/en/rss"@), ("germany"@, "Germany"@, "https://rss.dw.com/rdf/rss-en-all"@), ("german"@, "Germany"@, "https://rss.dw.com/rdf/rss-en-all"@), ("deutsch"@, "Germany"@, "https://rss.dw.com/rdf/rss-en-all"@), ("india"@, "India"@, "https://timesofindia.indiatimes.com/rssfeedstopstories.cms"@), ("indian"@, "India"@, "https://timesofindia.indiatimes.com/rssfeedstopstories.cms"@), ("indonesia"@, "Indonesia"@, "https://en.antaranews.com/rss/news.xml"@), ("indonesian"@, "Indonesia"@, "https://en.antaranews.com/rss/news.xml"@), ("italy"@, "Italy"@, "https://www.agi.it/rss"@)]
}

pub open spec fn topic_rows_2() -> Seq<(Seq<char>, Seq<char>, Seq<char>)> {
    seq![("italian"@, "Italy"@, "https://www.agi.it/rss"@), ("japan"@, "Japan"@, "https://www.japantimes.co.jp/feed"@), ("japanese"@, "Japan"@, "https://www.japantimes.co.jp/feed"@), ("mexico"@, "Mexico"@, "https://www.eluniversal.com.mx/rss.xml"@), ("mexican"@, "Mexico"@, "https://www.eluniversal.com.mx/rss.xml"@), ("russia"@, "Russia"@, "https://www.rt.com/rss/news/"@), ("russian"@, "Russia"@, "https://www.rt.com/rss/news/"@), ("saudi"@, "Saudi Arabia"@, "https://www.arabnews.com/rss.xml"@), ("saudi arabia"@, "Saudi Arabia"@, "https://www.arabnews.com/rss.xml"@), ("south africa"@, "South Africa"@, "https://mg.co.za/feed/"@), ("korea"@, "South Korea"@, "https://en.yna.co.kr/RSS/news.xml"@), ("south korean"@, "South Korea"@, "https://en.yna.co.kr/RSS/news.xml"@), ("korean"@, "South Korea"@, "https://en.yna.co.kr/RSS/news.xml"@), ("turkey"@, "Turkey"@, "https://www.hurriyet.com.tr/rss/anasayfa"@), ("turkish"@, "Turkey"@, "https://www.hurriyet.com.tr/rss/anasayfa"@), ("uk"@, "UK"@, "http://feeds.bbci.co.uk/news/world/rss.xml"@), ("britain"@, "UK"@, "http://feeds.bbci.co.uk/news/world/rss.xml"@), ("british"@, "UK"@, "http://feeds.bbci.co.uk/news/world/rss.xml"@), ("england"@, "UK"@, "http://feeds.bbci.co.uk/news/world/rss.xml"@), ("us"@, "USA"@, "https://rss.nytimes.com/services/xml/rss/nyt/HomePage.xml"@)]
}

pub open spec fn topic_rows_3() -> Seq<(Seq<char>, Seq<char>, Seq<char>)> {
    seq![("usa"@, "USA"@, "https://rss.nytimes.com/services/xml/rss/nyt/HomePage.xml"@), ("america"@, "USA"@, "https://rss.nytimes.com/services/xml/rss/nyt/HomePage.xml"@), ("american"@, "USA"@, "https://rss.nytimes.com/services/xml/rss/nyt/HomePage.xml"@), ("united states"@, "USA"@, "https://rss.nytimes.com/services/xml/rss/nyt/HomePage.xml"@), ("eu"@, "EU"@, "https://www.euronews.com/rss?level=vertical&name=news"@), ("europe"@, "EU"@, "https://www.euronews.com/rss?level=vertical&name=news"@), ("european"@, "EU"@, "https://www.euronews.com/rss?level=vertical&name=news"@), ("singapore"@, "Singapore"@, "https://www.straitstimes.com/news/world/rss.xml"@), ("singaporean"@, "Singapore"@, "https://www.straitstimes.com/news/world/rss.xml"@), ("malaysia"@, "Malaysia"@, "https://www.thestar.com.my/rss/news/nation"@), ("malaysian"@, "Malaysia"@, "https://www.thestar.com.my/rss/news/nation"@), ("vietnam"@, "Vietnam"@, "https://vietnamnews.vn/rss/politics.rss"@), ("vietnamese"@, "Vietnam"@, "https://vietnamnews.vn/rss/politics.rss"@), ("thailand"@, "Thailand"@, "https://www.bangkokpost.com/rss/data/topstories.xml"@), ("thai"@, "Thailand"@, "https://www.bangkokpost.com/rss/data/topstories.xml"@), ("philippines"@, "Philippines"@, "https://www.inquirer.net/fullfeed"@), ("philippine"@, "Philippines"@, "https://www.inquirer.net/fullfeed"@), ("filipino"@, "Philippines"@, "https://www.inquirer.net/fullfeed"@), ("myanmar"@, "Myanmar"@, "https://www.irrawaddy.com/feed"@), ("burmese"@, "Myanmar"@, "https://www.irrawaddy.com/feed"@)]
}

pub open spec fn topic_rows_4() -> Seq<(Seq<char>, Seq<char>, Seq<char>)> {
    seq![("cambodia"@, "Cambodia"@, "https://www.khmertimeskh.com/feed/"@), ("cambodian"@, "Cambodia"@, "https://www.khmertimeskh.com/feed/"@), ("pakistan"@, "Pakistan"@, "https://www.dawn.com/feeds/home/"@), ("pakistani"@, "Pakistan"@, "https://www.dawn.com/feeds/home/"@), ("bangladesh"@, "Bangladesh"@, "https://www.thedailystar.net/rss.xml"@), ("bangladeshi"@, "Bangladesh"@, "https://www.thedailystar.net/rss.xml"@), ("sri lanka"@, "Sri Lanka"@, "https://www.dailymirror.lk/rss/news"@), ("sri lankan"@, "Sri Lanka"@, "https://www.dailymirror.lk/rss/news"@), ("nepal"@, "Nepal"@, "https://kathmandupost.com/rss"@), ("nepalese"@, "Nepal"@, "https://kathmandupost.com/rss"@), ("kazakhstan"@, "Kazakhstan"@, "https://www.inform.kz/en/rss"@), ("kazakh"@, "Kazakhstan"@, "https://www.inform.kz/en/rss"@), ("uzbekistan"@, "Uzbekistan"@, "https://uzreport.news/rss"@), ("uzbek"@, "Uzbekistan"@, "https://uzreport.news/rss"@), ("taiwan"@, "Taiwan"@, "https://focustaiwan.tw/rss/get-rss.aspx?type=aall"@), ("taiwanese"@, "Taiwan"@, "https://focustaiwan.tw/rss/get-rss.aspx?type=aall"@), ("israel"@, "Israel"@, "https://www.haaretz.com/cmlink/1.4621118"@), ("israeli"@, "Israel"@, "https://www.haaretz.com/cmlink/1.4621118"@), ("uae"@, "UAE"@, "https://gulfnews.com/rss"@), ("united arab emirates"@, "UAE"@, "https://gulfnews.com/rss"@)]
}

pub open spec fn topic_rows_5() -> Seq<(Seq<char>, Seq<char>, Seq<char>)> {
    seq![("dubai"@, "UAE"@, "https://gulfnews.com/rss"@), ("qatar"@, "Qatar"@, "https://www.aljazeera.com/xml/rss/all.xml"@), ("qatari"@, "Qatar"@, "https://www.aljazeera.com/xml/rss/all.xml"@), ("iran"@, "Iran"@, "https://en.mehrnews.com/rss"@), ("iranian"@, "Iran"@, "https://en.mehrnews.com/rss"@), ("mongolia"@, "Mongolia"@, "https://www.montsame.mn/en/rss"@), ("mongolian"@, "Mongolia"@, "https://www.montsame.mn/en/rss"@), ("north korea"@, "North Korea"@, "https://www.kcna.watch/feed/"@), ("north korean"@, "North Korea"@, "https://www.kcna.watch/feed/"@), ("technology"@, "Technology"@, "https://techcrunch.com/feed/"@), ("tech"@, "Technology"@, "https://techcrunch.com/feed/"@), ("business"@, "Business"@, "https://news.yahoo.com/rss/business"@), ("finance"@, "Business"@, "https://news.yahoo.com/rss/business"@), ("economy"@, "Business"@, "https://news.yahoo.com/rss/business"@), ("sports"@, "Sports"@, "https://news.yahoo.com/rss/sports"@), ("sport"@, "Sports"@, "https://news.yahoo.com/rss/sports"@), ("entertainment"@, "Entertainment"@, "https://news.yahoo.com/rss/entertainment"@), ("movie"@, "Entertainment"@, "https://news.yahoo.com/rss/entertainment"@), ("film"@, "Entertainment"@, "https://news.yahoo.com/rss/entertainment"@)]
}

/// Keyword rows for news topics and regions: `(keyword, display, feed)`,
/// in detection order.
pub open spec fn topic_rows() -> Seq<(Seq<char>, Seq<char>, Seq<char>)> {
    topic_rows_1() + topic_rows_2() + topic_rows_3() + topic_rows_4() + topic_rows_5()
}

// ---------------------------------------------------------------------------
// Generic keyword scanning
// ---------------------------------------------------------------------------

pub open spec fn any_contained(kws: Seq<Seq<char>>, lowered: Seq<char>) -> bool {
    exists|k: int| 0 <= k < kws.len() && contains_sub(lowered, kws[k])
}

pub open spec fn pair_views(v: Seq<(Vec<char>, String)>) -> Seq<(Seq<char>, Seq<char>)> {
    v.map_values(|r: (Vec<char>, String)| (r.0@, r.1@))
}

pub open spec fn triple_views(v: Seq<(Vec<char>, String, String)>) -> Seq<
    (Seq<char>, Seq<char>, Seq<char>),
> {
    v.map_values(|r: (Vec<char>, String, String)| (r.0@, r.1@, r.2@))
}

/// The first row whose keyword is contained in the text.
pub open spec fn first_pair(rows: Seq<(Seq<char>, Seq<char>)>, lowered: Seq<char>) -> Option<
    (Seq<char>, Seq<char>),
>
    decreases rows.len(),
{
    if rows.len() == 0 {
        None
    } else if contains_sub(lowered, rows[0].0) {
        Some(rows[0])
    } else {
        first_pair(rows.drop_first(), lowered)
    }
}

/// The first topic row whose keyword is contained in the text.
pub open spec fn first_triple(
    rows: Seq<(Seq<char>, Seq<char>, Seq<char>)>,
    lowered: Seq<char>,
) -> Option<(Seq<char>, Seq<char>, Seq<char>)>
    decreases rows.len(),
{
    if rows.len() == 0 {
        None
    } else if contains_sub(lowered, rows[0].0) {
        Some(rows[0])
    } else {
        first_triple(rows.drop_first(), lowered)
    }
}

proof fn lemma_first_pair_at(rows: Seq<(Seq<char>, Seq<char>)>, lowered: Seq<char>, i: int)
    requires
        0 <= i < rows.len(),
        contains_sub(lowered, rows[i].0),
        forall|m: int| 0 <= m < i ==> !contains_sub(lowered, rows[m].0),
    ensures
        first_pair(rows, lowered) == Some(rows[i]),
    decreases rows.len(),
{
    if i == 0 {
    } else {
        let t = rows.drop_first();
        assert(forall|m: int| 0 <= m < i - 1 ==> t[m] == rows[m + 1]);
        assert(t[i - 1] == rows[i]);
        lemma_first_pair_at(t, lowered, i - 1);
    }
}

proof fn lemma_first_pair_missing(rows: Seq<(Seq<char>, Seq<char>)>, lowered: Seq<char>)
    requires
        forall|m: int| 0 <= m < rows.len() ==> !contains_sub(lowered, rows[m].0),
    ensures
        first_pair(rows, lowered) is None,
    decreases rows.len(),
{
    if rows.len() == 0 {
    } else {
        let t = rows.drop_first();
        assert(forall|m: int| 0 <= m < t.len() ==> t[m] == rows[m + 1]);
        lemma_first_pair_missing(t, lowered);
    }
}

proof fn lemma_first_triple_at(
    rows: Seq<(Seq<char>, Seq<char>, Seq<char>)>,
    lowered: Seq<char>,
    i: int,
)
    requires
        0 <= i < rows.len(),
        contains_sub(lowered, rows[i].0),
        forall|m: int| 0 <= m < i ==> !contains_sub(lowered, rows[m].0),
    ensures
        first_triple(rows, lowered) == Some(rows[i]),
    decreases rows.len(),
{
    if i == 0 {
    } else {
        let t = rows.drop_first();
        assert(forall|m: int| 0 <= m < i - 1 ==> t[m] == rows[m + 1]);
        assert(t[i - 1] == rows[i]);
        lemma_first_triple_at(t, lowered, i - 1);
    }
}

proof fn lemma_first_triple_missing(
    rows: Seq<(Seq<char>, Seq<char>, Seq<char>)>,
    lowered: Seq<char>,
)
    requires
        forall|m: int| 0 <= m < rows.len() ==> !contains_sub(lowered, rows[m].0),
    ensures
        first_triple(rows, lowered) is None,
    decreases rows.len(),
{
    if rows.len() == 0 {
    } else {
        let t = rows.drop_first();
        assert(forall|m: int| 0 <= m < t.len() ==> t[m] == rows[m + 1]);
        lemma_first_triple_missing(t, lowered);
    }
}

fn any_keyword(lowered: &Vec<char>, kws: &Vec<Vec<char>>) -> (r: bool)
    ensures
        r == any_contained(kws.deep_view(), lowered@),
{
    let n: usize = kws.len();
    let mut i: usize = 0;
    while i < n
        invariant
            i <= n,
            n == kws@.len(),
            kws.deep_view().len() == n,
            forall|m: int| 0 <= m < i ==> !contains_sub(lowered@, kws.deep_view()[m]),
        decreases n - i,
    {
        if text::contains_chars(lowered, &kws[i]) {
            proof {
                assert(kws.deep_view()[i as int] == kws@[i as int]@);
            }
            return true;
        }
        proof {
            assert(kws.deep_view()[i as int] == kws@[i as int]@);
        }
        i = i + 1;
    }
    false
}
/// The coding keywords as character vectors.
fn coding_keyword_list() -> (r: Vec<Vec<char>>)
    ensures
        r.deep_view() == coding_keywords(),
{
    let mut r: Vec<Vec<char>> = Vec::new();
    r.push(text::chars_of("code"));
    r.push(text::chars_of("write"));
    r.push(text::chars_of("create"));
    r.push(text::chars_of("build"));
    r.push(text::chars_of("make"));
    r.push(text::chars_of("debug"));
    r.push(text::chars_of("fix"));
    r.push(text::chars_of("program"));
    r.push(text::chars_of("script"));
    r.push(text::chars_of("function"));
    r.push(text::chars_of("class"));
    r.push(text::chars_of("algorithm"));
    r.push(text::chars_of("implement"));
    r.push(text::chars_of("develop"));
    r.push(text::chars_of("refactor"));
    r.push(text::chars_of("optimize"));
    r.push(text::chars_of("python"));
    r.push(text::chars_of("javascript"));
    r.push(text::chars_of("rust"));
    r.push(text::chars_of("java"));
    r.push(text::chars_of("golang"));
    r.push(text::chars_of("typescript"));
    r.push(text::chars_of("app"));
    r.push(text::chars_of("application"));
    r.push(text::chars_of("website"));
    r.push(text::chars_of("web"));
    r.push(text::chars_of("api"));
    r.push(text::chars_of("database"));
    proof {
        assert(r.deep_view() =~~= coding_keywords());
    }
    r
}

/// The news keywords as character vectors.
fn rss_keyword_list() -> (r: Vec<Vec<char>>)
    ensures
        r.deep_view() == rss_keywords(),
{
    let mut r: Vec<Vec<char>> = Vec::new();
    r.push(text::chars_of("news"));
    r.push(text::chars_of("headlines"));
    r.push(text::chars_of("latest"));
    r.push(text::chars_of("feed"));
    r.push(text::chars_of("rss"));
    r.push(text::chars_of("berita"));
    r.push(text::chars_of("headline"));
    r.push(text::chars_of("update"));
    r.push(text::chars_of("breaking"));
    proof {
        assert(r.deep_view() =~~= rss_keywords());
    }
    r
}

/// The skill rows as runtime values.
fn skill_row_list() -> (r: Vec<(Vec<char>, String)>)
    ensures
        pair_views(r@) == skill_rows(),
{
    let mut r: Vec<(Vec<char>, String)> = Vec::new();
    r.push((text::chars_of("weather"), String::from_str("weather")));
    r.push((text::chars_of("cuaca"), String::from_str("weather")));
    r.push((text::chars_of("github"), String::from_str("github")));
    r.push((text::chars_of("git"), String::from_str("github")));
    r.push((text::chars_of("spotify"), String::from_str("spotify")));
    r.push((text::chars_of("music"), String::from_str("spotify")));
    r.push((text::chars_of("weather"), String::from_str("weather")));
    r.push((text::chars_of("forecast"), String::from_str("weather")));
    r.push((text::chars_of("obsidian"), String::from_str("obsidian")));
    r.push((text::chars_of("note"), String::from_str("obsidian")));
    proof {
        assert(pair_views(r@) =~~= skill_rows());
    }
    r
}

/// The news-source rows as runtime values.
fn source_row_list() -> (r: Vec<(Vec<char>, String)>)
    ensures
        pair_views(r@) == source_rows(),
{
    let mut r: Vec<(Vec<char>, String)> = Vec::new();
    r.push((text::chars_of("yahoo"), String::from_str("https://news.yahoo.com/rss/topstories")));
    r.push((text::chars_of("yahoo news"), String::from_str("https://news.yahoo.com/rss/topstories")));
    r.push((text::chars_of("google"), String::from_str("https://news.google.com/rss")));
    r.push((text::chars_of("google news"), String::from_str("https://news.google.com/rss")));
    r.push((text::chars_of("bbc"), String::from_str("http://feeds.bbci.co.uk/news/rss.xml")));
    r.push((text::chars_of("bbc news"), String::from_str("http://feeds.bbci.co.uk/news/rss.xml")));
    r.push((text::chars_of("techcrunch"), String::from_str("https://techcrunch.com/feed/")));
    r.push((text::chars_of("hn"), String::from_str("https://hnrss.org/newest")));
    r.push((text::chars_of("hacker news"), String::from_str("https://hnrss.org/newest")));
    r.push((text::chars_of("hackernews"), String::from_str("https://hnrss.org/newest")));
    r.push((text::chars_of("cna"), String::from_str("https://www.channelnewsasia.com/rss")));
    r.push((text::chars_of("channel newsasia"), String::from_str("https://www.channelnewsasia.com/rss")));
    r.push((text::chars_of("channelnewsasia"), String::from_str("https://www.channelnewsasia.com/rss")));
    r.push((text::chars_of("reuters"), String::from_str("https://www.reutersagency.com/feed/")));
    r.push((text::chars_of("bbc world"), String::from_str("http://feeds.bbci.co.uk/news/world/rss.xml")));
    proof {
        assert(pair_views(r@) =~~= source_rows());
    }
    r
}

proof fn lemma_triple_views_concat(
    x: Seq<(Vec<char>, String, String)>,
    y: Seq<(Vec<char>, String, String)>,
)
    ensures
        triple_views(x + y) == triple_views(x) + triple_views(y),
{
    assert(triple_views(x + y) =~~= triple_views(x) + triple_views(y));
}

fn topic_chunk_1() -> (r: Vec<(Vec<char>, String, String)>)
    ensures
        triple_views(r@) == topic_rows_1(),
{
    let mut r: Vec<(Vec<char>, String, String)> = Vec::new();
    r.push((text::chars_of("argentina"), String::from_str("Argentina"), String::from_str("https://www.batimes.com.ar/feed")));
    r.push((text::chars_of("argentine"), String::from_str("Argentina"), String::from_str("https://www.batimes.com.ar/feed")));
    r.push((text::chars_of("australia"), String::from_str("Australia"), String::from_str("https://www.abc.net.au/news/feed/45910/rss.xml")));
    r.push((text::chars_of("australian"), String::from_str("Australia"), String::from_str("https://www.abc.net.au/news/feed/45910/rss.xml")));
    r.push((text::chars_of("brazil"), String::from_str("Brazil"), String::from_str("https://agenciabrasil.ebc.com.br/rss/ultimasnoticias/feed.xml")));
    r.push((text::chars_of("brazilian"), String::from_str("Brazil"), String::from_str("https://agenciabrasil.ebc.com.br/rss/ultimasnoticias/feed.xml")));
    r.push((text::chars_of("canada"), String::from_str("Canada"), String::from_str("https://www.cbc.ca/cmlink/rss-topstories")));
    r.push((text::chars_of("canadian"), String::from_str("Canada"), String::from_str("https://www.cbc.ca/cmlink/rss-topstories")));
    r.push((text::chars_of("china"), String::from_str("China"), String::from_str("https://www.scmp.com/rss/91/feed")));
    r.push((text::chars_of("chinese"), String::from_str("China"), String::from_str("https://www.scmp.com/rss/91/feed")));
    r.push((text::chars_of("france"), String::from_str("France"), String::from_str("https://www.france24.com/en/rss")));
    r.push((text::chars_of("french"), String::from_str("France"), String::from_str("https://www.france24.com/en/rss")));
    r.push((text::chars_of("germany"), String::from_str("Germany"), String::from_str("https://rss.dw.com/rdf/rss-en-all")));
    r.push((text::chars_of("german"), String::from_str("Germany"), String::from_str("https://rss.dw.com/rdf/rss-en-all")));
    r.push((text::chars_of("deutsch"), String::from_str("Germany"), String::from_str("https://rss.dw.com/rdf/rss-en-all")));
    r.push((text::chars_of("india"), String::from_str("India"), String::from_str("https://timesofindia.indiatimes.com/rssfeedstopstories.cms")));
    r.push((text::chars_of("indian"), String::from_str("India"), String::from_str("https://timesofindia.indiatimes.com/rssfeedstopstories.cms")));
    r.push((text::chars_of("indonesia"), String::from_str("Indonesia"), String::from_str("https://en.antaranews.com/rss/news.xml")));
    r.push((text::chars_of("indonesian"), String::from_str("Indonesia"), String::from_str("https://en.antaranews.com/rss/news.xml")));
    r.push((text::chars_of("italy"), String::from_str("Italy"), String::from_str("https://www.agi.it/rss")));
    proof {
        assert(triple_views(r@) =~~= topic_rows_1());
    }
    r
}

fn topic_chunk_2() -> (r: Vec<(Vec<char>, String, String)>)
    ensures
        triple_views(r@) == topic_rows_2(),
{
    let mut r: Vec<(Vec<char>, String, String)> = Vec::new();
    r.push((text::chars_of("italian"), String::from_str("Italy"), String::from_str("https://www.agi.it/rss")));
    r.push((text::chars_of("japan"), String::from_str("Japan"), String::from_str("https://www.japantimes.co.jp/feed")));
    r.push((text::chars_of("japanese"), String::from_str("Japan"), String::from_str("https://www.japantimes.co.jp/feed")));
    r.push((text::chars_of("mexico"), String::from_str("Mexico"), String::from_str("https://www.eluniversal.com.mx/rss.xml")));
    r.push((text::chars_of("mexican"), String::from_str("Mexico"), String::from_str("https://www.eluniversal.com.mx/rss.xml")));
    r.push((text::chars_of("russia"), String::from_str("Russia"), String::from_str("https://www.rt.com/rss/news/")));
    r.push((text::chars_of("russian"), String::from_str("Russia"), String::from_str("https://www.rt.com/rss/news/")));
    r.push((text::chars_of("saudi"), String::from_str("Saudi Arabia"), String::from_str("https://www.arabnews.com/rss.xml")));
    r.push((text::chars_of("saudi arabia"), String::from_str("Saudi Arabia"), String::from_str("https://www.arabnews.com/rss.xml")));
    r.push((text::chars_of("south africa"), String::from_str("South Africa"), String::from_str("https://mg.co.za/feed/")));
    r.push((text::chars_of("korea"), String::from_str("South Korea"), String::from_str("https://en.yna.co.kr/RSS/news.xml")));
    r.push((text::chars_of("south korean"), String::from_str("South Korea"), String::from_str("https://en.yna.co.kr/RSS/news.xml")));
    r.push((text::chars_of("korean"), String::from_str("South Korea"), String::from_str("https://en.yna.co.kr/RSS/news.xml")));
    r.push((text::chars_of("turkey"), String::from_str("Turkey"), String::from_str("https://www.hurriyet.com.tr/rss/anasayfa")));
    r.push((text::chars_of("turkish"), String::from_str("Turkey"), String::from_str("https://www.hurriyet.com.tr/rss/anasayfa")));
    r.push((text::chars_of("uk"), String::from_str("UK"), String::from_str("http://feeds.bbci.co.uk/news/world/rss.xml")));
    r.push((text::chars_of("britain"), String::from_str("UK"), String::from_str("http://feeds.bbci.co.uk/news/world/rss.xml")));
    r.push((text::chars_of("british"), String::from_str("UK"), String::from_str("http://feeds.bbci.co.uk/news/world/rss.xml")));
    r.push((text::chars_of("england"), String::from_str("UK"), String::from_str("http://feeds.bbci.co.uk/news/world/rss.xml")));
    r.push((text::chars_of("us"), String::from_str("USA"), String::from_str("https://rss.nytimes.com/services/xml/rss/nyt/HomePage.xml")));
    proof {
        assert(triple_views(r@) =~~= topic_rows_2());
    }
    r
}

fn topic_chunk_3() -> (r: Vec<(Vec<char>, String, String)>)
    ensures
        triple_views(r@) == topic_rows_3(),
{
    let mut r: Vec<(Vec<char>, String, String)> = Vec::new();
    r.push((text::chars_of("usa"), String::from_str("USA"), String::from_str("https://rss.nytimes.com/services/xml/rss/nyt/HomePage.xml")));
    r.push((text::chars_of("america"), String::from_str("USA"), String::from_str("https://rss.nytimes.com/services/xml/rss/nyt/HomePage.xml")));
    r.push((text::chars_of("american"), String::from_str("USA"), String::from_str("https://rss.nytimes.com/services/xml/rss/nyt/HomePage.xml")));
    r.push((text::chars_of("united states"), String::from_str("USA"), String::from_str("https://rss.nytimes.com/services/xml/rss/nyt/HomePage.xml")));
    r.push((text::chars_of("eu"), String::from_str("EU"), String::from_str("https://www.euronews.com/rss?level=vertical&name=news")));
    r.push((text::chars_of("europe"), String::from_str("EU"), String::from_str("https://www.euronews.com/rss?level=vertical&name=news")));
    r.push((text::chars_of("european"), String::from_str("EU"), String::from_str("https://www.euronews.com/rss?level=vertical&name=news")));
    r.push((text::chars_of("singapore"), String::from_str("Singapore"), String::from_str("https://www.straitstimes.com/news/world/rss.xml")));
    r.push((text::chars_of("singaporean"), String::from_str("Singapore"), String::from_str("https://www.straitstimes.com/news/world/rss.xml")));
    r.push((text::chars_of("malaysia"), String::from_str("Malaysia"), String::from_str("https://www.thestar.com.my/rss/news/nation")));
    r.push((text::chars_of("malaysian"), String::from_str("Malaysia"), String::from_str("https://www.thestar.com.my/rss/news/nation")));
    r.push((text::chars_of("vietnam"), String::from_str("Vietnam"), String::from_str("https://vietnamnews.vn/rss/politics.rss")));
    r.push((text::chars_of("vietnamese"), String::from_str("Vietnam"), String::from_str("https://vietnamnews.vn/rss/politics.rss")));
    r.push((text::chars_of("thailand"), String::from_str("Thailand"), String::from_str("https://www.bangkokpost.com/rss/data/topstories.xml")));
    r.push((text::chars_of("thai"), String::from_str("Thailand"), String::from_str("https://www.bangkokpost.com/rss/data/topstories.xml")));
    r.push((text::chars_of("philippines"), String::from_str("Philippines"), String::from_str("https://www.inquirer.net/fullfeed")));
    r.push((text::chars_of("philippine"), String::from_str("Philippines"), String::from_str("https://www.inquirer.net/fullfeed")));
    r.push((text::chars_of("filipino"), String::from_str("Philippines"), String::from_str("https://www.inquirer.net/fullfeed")));
    r.push((text::chars_of("myanmar"), String::from_str("Myanmar"), String::from_str("https://www.irrawaddy.com/feed")));
    r.push((text::chars_of("burmese"), String::from_str("Myanmar"), String::from_str("https://www.irrawaddy.com/feed")));
    proof {
        assert(triple_views(r@) =~~= topic_rows_3());
    }
    r
}

fn topic_chunk_4() -> (r: Vec<(Vec<char>, String, String)>)
    ensures
        triple_views(r@) == topic_rows_4(),
{
    let mut r: Vec<(Vec<char>, String, String)> = Vec::new();
    r.push((text::chars_of("cambodia"), String::from_str("Cambodia"), String::from_str("https://www.khmertimeskh.com/feed/")));
    r.push((text::chars_of("cambodian"), String::from_str("Cambodia"), String::from_str("https://www.khmertimeskh.com/feed/")));
    r.push((text::chars_of("pakistan"), String::from_str("Pakistan"), String::from_str("https://www.dawn.com/feeds/home/")));
    r.push((text::chars_of("pakistani"), String::from_str("Pakistan"), String::from_str("https://www.dawn.com/feeds/home/")));
    r.push((text::chars_of("bangladesh"), String::from_str("Bangladesh"), String::from_str("https://www.thedailystar.net/rss.xml")));
    r.push((text::chars_of("bangladeshi"), String::from_str("Bangladesh"), String::from_str("https://www.thedailystar.net/rss.xml")));
    r.push((text::chars_of("sri lanka"), String::from_str("Sri Lanka"), String::from_str("https://www.dailymirror.lk/rss/news")));
    r.push((text::chars_of("sri lankan"), String::from_str("Sri Lanka"), String::from_str("https://www.dailymirror.lk/rss/news")));
    r.push((text::chars_of("nepal"), String::from_str("Nepal"), String::from_str("https://kathmandupost.com/rss")));
    r.push((text::chars_of("nepalese"), String::from_str("Nepal"), String::from_str("https://kathmandupost.com/rss")));
    r.push((text::chars_of("kazakhstan"), String::from_str("Kazakhstan"), String::from_str("https://www.inform.kz/en/rss")));
    r.push((text::chars_of("kazakh"), String::from_str("Kazakhstan"), String::from_str("https://www.inform.kz/en/rss")));
    r.push((text::chars_of("uzbekistan"), String::from_str("Uzbekistan"), String::from_str("https://uzreport.news/rss")));
    r.push((text::chars_of("uzbek"), String::from_str("Uzbekistan"), String::from_str("https://uzreport.news/rss")));
    r.push((text::chars_of("taiwan"), String::from_str("Taiwan"), String::from_str("https://focustaiwan.tw/rss/get-rss.aspx?type=aall")));
    r.push((text::chars_of("taiwanese"), String::from_str("Taiwan"), String::from_str("https://focustaiwan.tw/rss/get-rss.aspx?type=aall")));
    r.push((text::chars_of("israel"), String::from_str("Israel"), String::from_str("https://www.haaretz.com/cmlink/1.4621118")));
    r.push((text::chars_of("israeli"), String::from_str("Israel"), String::from_str("https://www.haaretz.com/cmlink/1.4621118")));
    r.push((text::chars_of("uae"), String::from_str("UAE"), String::from_str("https://gulfnews.com/rss")));
    r.push((text::chars_of("united arab emirates"), String::from_str("UAE"), String::from_str("https://gulfnews.com/rss")));
    proof {
        assert(triple_views(r@) =~~= topic_rows_4());
    }
    r
}

fn topic_chunk_5() -> (r: Vec<(Vec<char>, String, String)>)
    ensures
        triple_views(r@) == topic_rows_5(),
{
    let mut r: Vec<(Vec<char>, String, String)> = Vec::new();
    r.push((text::chars_of("dubai"), String::from_str("UAE"), String::from_str("https://gulfnews.com/rss")));
    r.push((text::chars_of("qatar"), String::from_str("Qatar"), String::from_str("https://www.aljazeera.com/xml/rss/all.xml")));
    r.push((text::chars_of("qatari"), String::from_str("Qatar"), String::from_str("https://www.aljazeera.com/xml/rss/all.xml")));
    r.push((text::chars_of("iran"), String::from_str("Iran"), String::from_str("https://en.mehrnews.com/rss")));
    r.push((text::chars_of("iranian"), String::from_str("Iran"), String::from_str("https://en.mehrnews.com/rss")));
    r.push((text::chars_of("mongolia"), String::from_str("Mongolia"), String::from_str("https://www.montsame.mn/en/rss")));
    r.push((text::chars_of("mongolian"), String::from_str("Mongolia"), String::from_str("https://www.montsame.mn/en/rss")));
    r.push((text::chars_of("north korea"), String::from_str("North Korea"), String::from_str("https://www.kcna.watch/feed/")));
    r.push((text::chars_of("north korean"), String::from_str("North Korea"), String::from_str("https://www.kcna.watch/feed/")));
    r.push((text::chars_of("technology"), String::from_str("Technology"), String::from_str("https://techcrunch.com/feed/")));
    r.push((text::chars_of("tech"), String::from_str("Technology"), String::from_str("https://techcrunch.com/feed/")));
    r.push((text::chars_of("business"), String::from_str("Business"), String::from_str("https://news.yahoo.com/rss/business")));
    r.push((text::chars_of("finance"), String::from_str("Business"), String::from_str("https://news.yahoo.com/rss/business")));
    r.push((text::chars_of("economy"), String::from_str("Business"), String::from_str("https://news.yahoo.com/rss/business")));
    r.push((text::chars_of("sports"), String::from_str("Sports"), String::from_str("https://news.yahoo.com/rss/sports")));
    r.push((text::chars_of("sport"), String::from_str("Sports"), String::from_str("https://news.yahoo.com/rss/sports")));
    r.push((text::chars_of("entertainment"), String::from_str("Entertainment"), String::from_str("https://news.yahoo.com/rss/entertainment")));
    r.push((text::chars_of("movie"), String::from_str("Entertainment"), String::from_str("https://news.yahoo.com/rss/entertainment")));
    r.push((text::chars_of("film"), String::from_str("Entertainment"), String::from_str("https://news.yahoo.com/rss/entertainment")));
    proof {
        assert(triple_views(r@) =~~= topic_rows_5());
    }
    r
}

/// The topic rows as runtime values.
fn topic_row_list() -> (r: Vec<(Vec<char>, String, String)>)
    ensures
        triple_views(r@) == topic_rows(),
{
    let mut r = topic_chunk_1();
    let ghost prev1 = r@;
    let mut c2 = topic_chunk_2();
    let ghost cv2 = c2@;
    r.append(&mut c2);
    proof {
        lemma_triple_views_concat(prev1, cv2);
    }
    let ghost prev2 = r@;
    let mut c3 = topic_chunk_3();
    let ghost cv3 = c3@;
    r.append(&mut c3);
    proof {
        lemma_triple_views_concat(prev2, cv3);
    }
    let ghost prev3 = r@;
    let mut c4 = topic_chunk_4();
    let ghost cv4 = c4@;
    r.append(&mut c4);
    proof {
        lemma_triple_views_concat(prev3, cv4);
    }
    let ghost prev4 = r@;
    let mut c5 = topic_chunk_5();
    let ghost cv5 = c5@;
    r.append(&mut c5);
    proof {
        lemma_triple_views_concat(prev4, cv5);
    }
    r
}


// ---------------------------------------------------------------------------
// Detection
// ---------------------------------------------------------------------------

/// Does the text look like a coding task?
pub fn is_coding_intent(text: &str) -> (r: bool)
    ensures
        r == any_contained(coding_keywords(), lower(text@)),
{
    let tv = text::chars_of(text);
    let lowered = text::ascii_lower(&tv);
    let kws = coding_keyword_list();
    any_keyword(&lowered, &kws)
}

/// Does the text ask for news?
pub fn is_rss_intent(text: &str) -> (r: bool)
    ensures
        r == any_contained(rss_keywords(), lower(text@)),
{
    let tv = text::chars_of(text);
    let lowered = text::ascii_lower(&tv);
    let kws = rss_keyword_list();
    any_keyword(&lowered, &kws)
}

/// The skill the text asks for, by the first matching keyword.
pub fn detect_skill(text: &str) -> (r: Option<String>)
    ensures
        match first_pair(skill_rows(), lower(text@)) {
            Some(row) => r matches Some(s) && s@ == row.1,
            None => r is None,
        },
{
    let tv = text::chars_of(text);
    let lowered = text::ascii_lower(&tv);
    let rows = skill_row_list();
    match scan_pairs(&lowered, &rows) {
        Some(i) => {
            proof {
                lemma_first_pair_at(pair_views(rows@), lowered@, i as int);
            }
            Some(rows[i].1.clone())
        },
        None => {
            proof {
                lemma_first_pair_missing(pair_views(rows@), lowered@);
            }
            None
        },
    }
}

/// Index of the first row whose keyword is contained in the text.
fn scan_pairs(lowered: &Vec<char>, rows: &Vec<(Vec<char>, String)>) -> (r: Option<usize>)
    ensures
        match r {
            Some(i) => i < rows@.len() && contains_sub(lowered@, pair_views(rows@)[i as int].0)
                && forall|m: int|
                0 <= m < i ==> !contains_sub(lowered@, pair_views(rows@)[m].0),
            None => forall|m: int|
                0 <= m < rows@.len() ==> !contains_sub(lowered@, pair_views(rows@)[m].0),
        },
{
    let n: usize = rows.len();
    let mut i: usize = 0;
    while i < n
        invariant
            i <= n,
            n == rows@.len(),
            forall|m: int| 0 <= m < i ==> !contains_sub(lowered@, pair_views(rows@)[m].0),
        decreases n - i,
    {
        if text::contains_chars(lowered, &rows[i].0) {
            proof {
                assert(pair_views(rows@)[i as int].0 == rows@[i as int].0@);
            }
            return Some(i);
        }
        proof {
            assert(pair_views(rows@)[i as int].0 == rows@[i as int].0@);
        }
        i = i + 1;
    }
    None
}

/// Index of the first topic row whose keyword is contained in the text.
fn scan_triples(lowered: &Vec<char>, rows: &Vec<(Vec<char>, String, String)>) -> (r: Option<
    usize,
>)
    ensures
        match r {
            Some(i) => i < rows@.len() && contains_sub(lowered@, triple_views(rows@)[i as int].0)
                && forall|m: int|
                0 <= m < i ==> !contains_sub(lowered@, triple_views(rows@)[m].0),
            None => forall|m: int|
                0 <= m < rows@.len() ==> !contains_sub(lowered@, triple_views(rows@)[m].0),
        },
{
    let n: usize = rows.len();
    let mut i: usize = 0;
    while i < n
        invariant
            i <= n,
            n == rows@.len(),
            forall|m: int| 0 <= m < i ==> !contains_sub(lowered@, triple_views(rows@)[m].0),
        decreases n - i,
    {
        if text::contains_chars(lowered, &rows[i].0) {
            proof {
                assert(triple_views(rows@)[i as int].0 == rows@[i as int].0@);
            }
            return Some(i);
        }
        proof {
            assert(triple_views(rows@)[i as int].0 == rows@[i as int].0@);
        }
        i = i + 1;
    }
    None
}

/// The named news source the text mentions, by the first matching keyword.
pub fn detect_news_source(text: &str) -> (r: Option<String>)
    ensures
        match first_pair(source_rows(), lower(text@)) {
            Some(row) => r matches Some(s) && s@ == row.0,
            None => r is None,
        },
{
    let tv = text::chars_of(text);
    let lowered = text::ascii_lower(&tv);
    let rows = source_row_list();
    match scan_pairs(&lowered, &rows) {
        Some(i) => {
            proof {
                lemma_first_pair_at(pair_views(rows@), lowered@, i as int);
            }
            Some(text::string_of(&rows[i].0))
        },
        None => {
            proof {
                lemma_first_pair_missing(pair_views(rows@), lowered@);
            }
            None
        },
    }
}

/// The source keyword and its feed, by the first matching keyword.
fn detect_news_feed(lowered: &Vec<char>) -> (r: Option<(String, String)>)
    ensures
        match first_pair(source_rows(), lowered@) {
            Some(row) => r matches Some(p) && p.0@ == row.0 && p.1@ == row.1,
            None => r is None,
        },
{
    let rows = source_row_list();
    match scan_pairs(lowered, &rows) {
        Some(i) => {
            proof {
                lemma_first_pair_at(pair_views(rows@), lowered@, i as int);
            }
            Some((text::string_of(&rows[i].0), rows[i].1.clone()))
        },
        None => {
            proof {
                lemma_first_pair_missing(pair_views(rows@), lowered@);
            }
            None
        },
    }
}

/// The news topic or region the text mentions, with its display name and
/// feed, by the first matching keyword.
pub fn detect_news_topic(text: &str) -> (r: Option<(String, String)>)
    ensures
        match first_triple(topic_rows(), lower(text@)) {
            Some(row) => r matches Some(p) && p.0@ == row.1 && p.1@ == row.2,
            None => r is None,
        },
{
    let tv = text::chars_of(text);
    let lowered = text::ascii_lower(&tv);
    let rows = topic_row_list();
    match scan_triples(&lowered, &rows) {
        Some(i) => {
            proof {
                lemma_first_triple_at(triple_views(rows@), lowered@, i as int);
            }
            Some((rows[i].1.clone(), rows[i].2.clone()))
        },
        None => {
            proof {
                lemma_first_triple_missing(triple_views(rows@), lowered@);
            }
            None
        },
    }
}

/// Whether one conversation entry marks an ongoing news exchange.
pub open spec fn news_marker(m: &LLMMessage) -> bool {
    (m.role@ == "assistant"@ && contains_sub(m.content@, "news source"@)) || contains_sub(
        m.content@,
        "RSS feed"@,
    ) || contains_sub(m.content@, "Which source"@)
}

/// Is the conversation already about picking a news source?
pub fn is_news_conversation(conversation: &Vec<LLMMessage>) -> (r: bool)
    ensures
        r == exists|i: int| 0 <= i < conversation@.len() && news_marker(&conversation@[i]),
{
    let n: usize = conversation.len();
    let assistant = text::chars_of("assistant");
    let marker1 = text::chars_of("news source");
    let marker2 = text::chars_of("RSS feed");
    let marker3 = text::chars_of("Which source");
    let mut i: usize = 0;
    while i < n
        invariant
            i <= n,
            n == conversation@.len(),
            assistant@ == "assistant"@,
            marker1@ == "news source"@,
            marker2@ == "RSS feed"@,
            marker3@ == "Which source"@,
            forall|m: int| 0 <= m < i ==> !news_marker(&conversation@[m]),
        decreases n - i,
    {
        let rv = text::chars_of(conversation[i].role.as_str());
        let cv = text::chars_of(conversation[i].content.as_str());
        let is_assistant = text::eq_chars(&rv, &assistant);
        let hit1 = is_assistant && text::contains_chars(&cv, &marker1);
        let hit2 = text::contains_chars(&cv, &marker2);
        let hit3 = text::contains_chars(&cv, &marker3);
        if hit1 || hit2 || hit3 {
            return true;
        }
        i = i + 1;
    }
    false
}

/// The display name a source keyword is shown under.
pub open spec fn source_display_spec(kw: Seq<char>) -> Seq<char> {
    if kw == "yahoo news"@ {
        "Yahoo News"@
    } else if kw == "google news"@ {
        "Google News"@
    } else if kw == "bbc news"@ {
        "BBC News"@
    } else if kw == "channel newsasia"@ {
        "Channel NewsAsia"@
    } else if kw == "channelnewsasia"@ {
        "Channel NewsAsia"@
    } else if kw == "hacker news"@ {
        "Hacker News"@
    } else if kw == "hackernews"@ {
        "Hacker News"@
    } else {
        kw
    }
}

/// Render a source keyword as its display name.
fn source_display(kw: &str) -> (r: String)
    ensures
        r@ == source_display_spec(kw@),
{
    let kv = text::chars_of(kw);
    let p0 = text::chars_of("yahoo news");
    if text::eq_chars(&kv, &p0) {
        return String::from_str("Yahoo News");
    }
    let p1 = text::chars_of("google news");
    if text::eq_chars(&kv, &p1) {
        return String::from_str("Google News");
    }
    let p2 = text::chars_of("bbc news");
    if text::eq_chars(&kv, &p2) {
        return String::from_str("BBC News");
    }
    let p3 = text::chars_of("channel newsasia");
    if text::eq_chars(&kv, &p3) {
        return String::from_str("Channel NewsAsia");
    }
    let p4 = text::chars_of("channelnewsasia");
    if text::eq_chars(&kv, &p4) {
        return String::from_str("Channel NewsAsia");
    }
    let p5 = text::chars_of("hacker news");
    if text::eq_chars(&kv, &p5) {
        return String::from_str("Hacker News");
    }
    let p6 = text::chars_of("hackernews");
    if text::eq_chars(&kv, &p6) {
        return String::from_str("Hacker News");
    }
    String::from_str(kw)
}

// ---------------------------------------------------------------------------
// Routing
// ---------------------------------------------------------------------------

/// Where a free-text message should go.
pub enum RouteDecision {
    /// Fetch and present this feed under this display name.
    NewsFeed { url: String, display: String },
    /// Hand the text to the coding agent.
    Coding,
    /// Run the named skill.
    Skill(String),
    /// Fall through to the conversational model.
    Chat,
}

/// The routing rule: a source reply inside a news conversation wins, then a
/// news request (topic feed, else named source, else the default feed),
/// then coding, then a skill, else chat.
pub open spec fn route_spec(text: Seq<char>, news_context: bool, r: &RouteDecision) -> bool {
    let lowered = lower(text);
    if news_context && first_pair(source_rows(), lowered) is Some {
        match first_pair(source_rows(), lowered) {
            Some(src) => r matches RouteDecision::NewsFeed { url, display } && url@ == src.1
                && display@ == source_display_spec(src.0),
            None => false,
        }
    } else if any_contained(rss_keywords(), lowered) {
        match first_triple(topic_rows(), lowered) {
            Some(t) => r matches RouteDecision::NewsFeed { url, display } && url@ == t.2
                && display@ == t.1,
            None => match first_pair(source_rows(), lowered) {
                Some(src) => r matches RouteDecision::NewsFeed { url, display } && url@ == src.1
                    && display@ == source_display_spec(src.0),
                None => r matches RouteDecision::NewsFeed { url, display } && url@
                    == "https://news.yahoo.com/rss/topstories"@ && display@ == "Yahoo News"@,
            },
        }
    } else if any_contained(coding_keywords(), lowered) {
        r is Coding
    } else {
        match first_pair(skill_rows(), lowered) {
            Some(row) => r matches RouteDecision::Skill(s) && s@ == row.1,
            None => r is Chat,
        }
    }
}

/// Decide where a free-text message goes; `news_context` says whether the
/// conversation is already about picking a news source.
pub fn route_decision(text: &str, news_context: bool) -> (r: RouteDecision)
    ensures
        route_spec(text@, news_context, &r),
{
    let tv = text::chars_of(text);
    let lowered = text::ascii_lower(&tv);
    if news_context {
        match detect_news_feed(&lowered) {
            Some(p) => {
                let (kw, url) = p;
                let display = source_display(kw.as_str());
                return RouteDecision::NewsFeed { url, display };
            },
            None => {},
        }
    }
    let kws = rss_keyword_list();
    if any_keyword(&lowered, &kws) {
        match detect_news_topic(text) {
            Some(p) => {
                let (display, url) = p;
                return RouteDecision::NewsFeed { url, display };
            },
            None => {},
        }
        match detect_news_feed(&lowered) {
            Some(p) => {
                let (kw, url) = p;
                let display = source_display(kw.as_str());
                return RouteDecision::NewsFeed { url, display };
            },
            None => {},
        }
        return RouteDecision::NewsFeed {
            url: String::from_str("https://news.yahoo.com/rss/topstories"),
            display: String::from_str("Yahoo News"),
        };
    }
    if is_coding_intent(text) {
        return RouteDecision::Coding;
    }
    match detect_skill(text) {
        Some(s) => RouteDecision::Skill(s),
        None => RouteDecision::Chat,
    }
}

} // verus!
