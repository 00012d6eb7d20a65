use vstd::prelude::*;
use crate::text::words_view;

verus! {

/// The words that may be drawn as answers, each followed by one space.
pub const FINAL_TEXT: &'static str =
"\
    aback abide about above actor acute adopt adult after again agent agree \
    ahead alarm album alert alien align alike alive allow alone along alter \
    amber among angel anger angle angry apart apple apply arena argue arise \
    array aside asset audio audit avoid award aware awful bacon badge basic \
    beach beast begin being below bench birth black blade blame blank blast \
    bleed blend bless blind block blood board boost bound brain brand brave \
    bread break brick bride brief bring broad brown brush build built burst \
    buyer cabin cable candy carry catch cause chain chair chalk charm chart \
    chase cheap check chess chest chief child chord civil claim clash class \
    clean clear climb clock close cloud coach coast count court cover crack \
    craft crane crash crate cream crime cross crowd crown crust curve cycle \
    daily dance dealt death delay depth devil diary dirty doubt dozen draft \
    drama dream dress drink drive eager early earth eight elbow elite empty \
    enemy enjoy enter entry equal error event every exact exist extra faith \
    false fault feast fiber field fifth fight final flame flash fleet flesh \
    float floor flour fluid focus force forth forum found frame fresh front \
    frost fruit ghost giant given glass globe glory grace grade grain grand \
    grant grape graph grass grave great green greet grief gross group guard \
    guess guest guide habit happy harsh heart heavy hello horse hotel house \
    human humor ideal image index inner input issue ivory jelly joint judge \
    juice knife knock label labor large laser later laugh layer learn least \
    leave legal lemon level light limit linen liver lodge logic loose lover \
    lower loyal lucky lunch magic major maker march match mayor medal media \
    mercy metal minor model money month moral motor mount mouse mouth movie \
    music nerve never night noble noise north novel nurse ocean offer often \
    olive onion opera orbit order other outer owner paint panel paper party \
    peace pearl phase phone photo piano pilot pitch place plain plane plant \
    plate point pound power press price pride prime print prize proof proud \
    prove queen quick quiet quite radio raise range rapid ratio reach ready \
    realm refer relax reply rider ridge rifle right rival river robin robot \
    rough round route royal rural salad scale scene scope score sense serve \
    seven shade shake shape share sharp sheep shelf shell shift shine shirt \
    shock shore short shout sight skill slate sleep slice slide smart smile \
    smoke snake solid solve sound south space spare speak speed spend spice \
    spine spoon sport staff stage stair stake stand start state steam steel \
    stick still stone stood store storm story stove straw strip study stuff \
    style sugar suite sunny super sweet swing sword table taste teach thank \
    theme thick thing think third throw tiger tight title toast today token \
    topic total touch tough tower toxic trace track trade trail train trend \
    trial tribe trick truck truly trust truth tulip twice uncle under union \
    unity until upper upset urban usage usual valid value video virus visit \
    vital vivid vocal voice waste watch water wheat wheel where which while \
    white whole width woman world worry worth would wound write wrong young \
    youth zebra \
";

/// The words accepted as guesses besides the answer words, each followed by
/// one space.
pub const EXTRA_TEXT: &'static str =
"\
    aahed aalii abaca abaci abaft abamp abase abash abate abbey abbot abhor \
    abler abode abort abuse abyss acorn acrid adage adapt adept admin admit \
    adobe adore adorn affix afire afoot afoul agape agate agile aging aglow \
    agony aider aisle algae alibi allay alley allot alloy aloft aloof aloud \
    alpha altar amass amaze amble amend amiss amity ample amply amuse anime \
    ankle annex annoy annul anode antic anvil aorta aphid aping apnea apron \
    aptly arbor ardor armor aroma arose arrow arson artsy ascot ashen askew \
    assay atoll atone attic augur aunty avail avert avian await awake awash \
    awoke axial axiom azure \
";

/// The words of a text made of five-letter words each followed by one
/// separator character.
pub open spec fn chunk_words(text: Seq<char>) -> Seq<Seq<char>> {
    Seq::new(text.len() / 6, |i: int| text.subrange(6 * i, 6 * i + 5))
}

/// The built-in answer corpus.
pub open spec fn final_corpus() -> Seq<Seq<char>> {
    chunk_words(FINAL_TEXT@)
}

/// The built-in guess corpus: the answer corpus followed by the extra words.
pub open spec fn acceptable_corpus() -> Seq<Seq<char>> {
    final_corpus() + chunk_words(EXTRA_TEXT@)
}

fn chunk_text(text: &str) -> (r: Vec<String>)
    ensures
        words_view(r@) == chunk_words(text@),
{
    let n = text.unicode_len() / 6;
    let mut r: Vec<String> = Vec::new();
    let mut i: usize = 0;
    while i < n
        invariant
            n == text@.len() / 6,
            text@.len() <= usize::MAX,
            i <= n,
            words_view(r@) == chunk_words(text@).subrange(0, i as int),
        decreases n - i,
    {
        assert(6 * i + 6 <= text@.len()) by (nonlinear_arith)
            requires
                i < n,
                n == text@.len() / 6,
        ;
        let w = text.substring_char(6 * i, 6 * i + 5);
        let owned = w.to_owned();
        assert(owned@ == chunk_words(text@)[i as int]);
        let ghost before = r@;
        r.push(owned);
        assert(words_view(r@) =~= words_view(before).push(owned@));
        assert(words_view(r@) =~= chunk_words(text@).subrange(0, i + 1));
        i = i + 1;
    }
    assert(words_view(r@) =~= chunk_words(text@));
    r
}

/// The built-in answer corpus, as strings.
pub fn final_words() -> (r: Vec<String>)
    ensures
        words_view(r@) == final_corpus(),
{
    chunk_text(FINAL_TEXT)
}

/// The built-in guess corpus, as strings.
pub fn acceptable_words() -> (r: Vec<String>)
    ensures
        words_view(r@) == acceptable_corpus(),
{
    let mut r = chunk_text(FINAL_TEXT);
    let mut extra = chunk_text(EXTRA_TEXT);
    r.append(&mut extra);
    proof {
        assert(words_view(r@) =~= acceptable_corpus());
    }
    r
}

} // verus!
