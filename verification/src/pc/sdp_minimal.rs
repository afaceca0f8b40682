//! A lenient reading of session descriptions that keeps only the version,
//! origin, name, connection and each media section's fields and
//! attributes as text.
use vstd::prelude::*;
use crate::pc::sdp::{join, push_join, texts};
use crate::pc::sdp_parse::{parse_or, parse_u64_or, text_of, texts_of};
use crate::scan::{chars_of, find_char, find_in, ranges_text, split_in, split_on, trim, trim_range, words, words_in, range_is};

verus! {

pub struct MediaSection {
    pub media_type: String,
    pub port: u16,
    pub protocol: String,
    pub formats: String,
    pub attributes: Vec<String>,
}

pub struct MinimalSdp {
    pub version: String,
    pub origin: String,
    pub session_name: String,
    pub connection: String,
    pub media: Vec<MediaSection>,
}

pub struct SectionModel {
    pub media_type: Seq<char>,
    pub port: u16,
    pub protocol: Seq<char>,
    pub formats: Seq<char>,
    pub attributes: Seq<Seq<char>>,
}

pub struct MinimalModel {
    pub version: Seq<char>,
    pub origin: Seq<char>,
    pub session_name: Seq<char>,
    pub connection: Seq<char>,
    pub media: Seq<SectionModel>,
}

impl View for MediaSection {
    type V = SectionModel;

    open spec fn view(&self) -> SectionModel {
        SectionModel {
            media_type: self.media_type@,
            port: self.port,
            protocol: self.protocol@,
            formats: self.formats@,
            attributes: texts(self.attributes@),
        }
    }
}

impl View for MinimalSdp {
    type V = MinimalModel;

    open spec fn view(&self) -> MinimalModel {
        MinimalModel {
            version: self.version@,
            origin: self.origin@,
            session_name: self.session_name@,
            connection: self.connection@,
            media: self.media@.map_values(|m: MediaSection| m@),
        }
    }
}

/// A media line's value: type, port (zero when not a number), protocol,
/// and the remaining fields joined by single spaces; `None` with fewer
/// than three fields.
pub open spec fn section_model(value: Seq<char>) -> Option<SectionModel> {
    let p = words(value);
    if p.len() >= 3 {
        Some(
            SectionModel {
                media_type: p[0],
                port: parse_or(p[1], 0xFFFF, 0) as u16,
                protocol: p[2],
                formats: join(p.skip(3), " "@),
                attributes: Seq::empty(),
            },
        )
    } else {
        None
    }
}

/// One trimmed line `key=value` (key and value trimmed) applied to the
/// description and the section being read; lines without `=` are skipped.
pub open spec fn minimal_step(st: (MinimalModel, Option<SectionModel>), l: Seq<char>) -> (MinimalModel, Option<SectionModel>) {
    let k = find_char(l, '=', 0);
    if l.len() == 0 || k >= l.len() {
        st
    } else {
        let key = trim(l.subrange(0, k));
        let value = trim(l.subrange(k + 1, l.len() as int));
        let d = st.0;
        if key == "v"@ {
            (MinimalModel { version: value, ..d }, st.1)
        } else if key == "o"@ {
            (MinimalModel { origin: value, ..d }, st.1)
        } else if key == "s"@ {
            (MinimalModel { session_name: value, ..d }, st.1)
        } else if key == "c"@ {
            (MinimalModel { connection: value, ..d }, st.1)
        } else if key == "m"@ {
            let d2 = match st.1 {
                Some(m) => MinimalModel { media: d.media.push(m), ..d },
                None => d,
            };
            (d2, section_model(value))
        } else if key == "a"@ {
            match st.1 {
                Some(m) => (d, Some(SectionModel { attributes: m.attributes.push(value), ..m })),
                None => st,
            }
        } else {
            st
        }
    }
}

pub open spec fn minimal_lines(lines: Seq<Seq<char>>, st: (MinimalModel, Option<SectionModel>)) -> (MinimalModel, Option<SectionModel>)
    decreases lines.len(),
{
    if lines.len() == 0 {
        st
    } else {
        minimal_lines(lines.drop_first(), minimal_step(st, trim(lines[0])))
    }
}

/// What the lenient reading gives: `None` without a version or without a
/// media section.
pub open spec fn minimal_model(text: Seq<char>) -> Option<MinimalModel> {
    let empty = MinimalModel {
        version: Seq::empty(),
        origin: Seq::empty(),
        session_name: Seq::empty(),
        connection: Seq::empty(),
        media: Seq::empty(),
    };
    let st = minimal_lines(split_on(text, '\n'), (empty, None));
    let d = match st.1 {
        Some(m) => MinimalModel { media: st.0.media.push(m), ..st.0 },
        None => st.0,
    };
    if d.version.len() == 0 || d.media.len() == 0 {
        None
    } else {
        Some(d)
    }
}

pub open spec fn opt_section(m: Option<MediaSection>) -> Option<SectionModel> {
    match m {
        Some(x) => Some(x@),
        None => None,
    }
}

fn section_from(text: &str, cs: &[char], a: usize, b: usize) -> (r: Option<MediaSection>)
    requires
        cs@ == text@,
        a <= b <= cs@.len(),
    ensures
        opt_section(r) == section_model(cs@.subrange(a as int, b as int)),
{
    let p = words_in(cs, a, b);
    if p.len() < 3 {
        return None;
    }
    let ghost w = ranges_text(cs@, p@);
    assert(w[0] == cs@.subrange(p@[0].0 as int, p@[0].1 as int));
    assert(w[1] == cs@.subrange(p@[1].0 as int, p@[1].1 as int));
    assert(w[2] == cs@.subrange(p@[2].0 as int, p@[2].1 as int));
    let rest = texts_of(text, cs, &p, 3);
    let mut formats = String::new();
    let ghost e = formats@;
    push_join(&mut formats, &rest, " ");
    assert(formats@ =~= join(w.skip(3), " "@));
    let s = MediaSection {
        media_type: text_of(text, p[0]),
        port: parse_u64_or(cs, p[1], 0xFFFF, 0) as u16,
        protocol: text_of(text, p[2]),
        formats,
        attributes: Vec::new(),
    };
    assert(s@.attributes =~= Seq::<Seq<char>>::empty());
    Some(s)
}

/// Reads a description leniently: lines end at `\n` and are trimmed;
/// each `key=value` line sets the version (`v`), origin (`o`), name
/// (`s`), connection (`c`), starts a media section (`m`) or adds an
/// attribute to the current one (`a`). `None` without a version or a media
/// section.
pub fn parse_sdp_minimal(input: &str) -> (r: Option<MinimalSdp>)
    ensures
        match minimal_model(input@) {
            Some(m) => r is Some && r->0@ == m,
            None => r is None,
        },
{
    let cs = chars_of(input);
    let lines = split_in(cs.as_slice(), 0, cs.len(), '\n');
    let ghost all = split_on(input@, '\n');
    assert(cs@.subrange(0, cs@.len() as int) =~= cs@);
    let mut sdp = MinimalSdp {
        version: String::new(),
        origin: String::new(),
        session_name: String::new(),
        connection: String::new(),
        media: Vec::new(),
    };
    let mut current: Option<MediaSection> = None;
    let ghost init = (sdp@, opt_section(current));
    assert(sdp@.media =~= Seq::<SectionModel>::empty());
    assert(all.skip(0) =~= all);
    let mut i: usize = 0;
    while i < lines.len()
        invariant
            cs@ == input@,
            all == split_on(input@, '\n'),
            ranges_text(cs@, lines@) == all,
            forall|j: int| 0 <= j < lines@.len() ==> (#[trigger] lines@[j]).0 <= lines@[j].1 <= cs@.len(),
            i <= lines@.len(),
            init == (MinimalModel {
                version: Seq::empty(),
                origin: Seq::empty(),
                session_name: Seq::empty(),
                connection: Seq::empty(),
                media: Seq::empty(),
            }, None::<SectionModel>),
            minimal_lines(all, init) == minimal_lines(all.skip(i as int), (sdp@, opt_section(current))),
        decreases lines@.len() - i,
    {
        let (la, lb) = lines[i];
        let (ta, tb) = trim_range(cs.as_slice(), la, lb);
        assert(all[i as int] == cs@.subrange(la as int, lb as int));
        assert(all.skip(i as int)[0] == all[i as int]);
        assert(all.skip(i as int).drop_first() =~= all.skip(i + 1));
        let ghost l = cs@.subrange(ta as int, tb as int);
        let ghost st0 = (sdp@, opt_section(current));
        let k = find_in(cs.as_slice(), ta, tb, '=');
        if ta < tb && k < tb {
            assert(l.subrange(0, k - ta) =~= cs@.subrange(ta as int, k as int));
            assert(l.subrange(k - ta + 1, l.len() as int) =~= cs@.subrange(k + 1, tb as int));
            let (ka, kb) = trim_range(cs.as_slice(), ta, k);
            let (va, vb) = trim_range(cs.as_slice(), k + 1, tb);
            if range_is(cs.as_slice(), ka, kb, "v") {
                sdp.version = text_of(input, (va, vb));
            } else if range_is(cs.as_slice(), ka, kb, "o") {
                sdp.origin = text_of(input, (va, vb));
            } else if range_is(cs.as_slice(), ka, kb, "s") {
                sdp.session_name = text_of(input, (va, vb));
            } else if range_is(cs.as_slice(), ka, kb, "c") {
                sdp.connection = text_of(input, (va, vb));
            } else if range_is(cs.as_slice(), ka, kb, "m") {
                let prev = current.take();
                match prev {
                    Some(m) => {
                        let ghost m0 = sdp@.media;
                        let ghost mv = m@;
                        sdp.media.push(m);
                        assert(sdp@.media =~= m0.push(mv));
                    },
                    None => {},
                }
                current = section_from(input, cs.as_slice(), va, vb);
            } else if range_is(cs.as_slice(), ka, kb, "a") {
                match current {
                    Some(ref mut m) => {
                        let v = text_of(input, (va, vb));
                        let ghost a0 = m@.attributes;
                        let ghost vv = v@;
                        m.attributes.push(v);
                        assert(m@.attributes =~= a0.push(vv));
                    },
                    None => {},
                }
            }
        }
        assert((sdp@, opt_section(current)) == minimal_step(st0, l));
        i = i + 1;
    }
    assert(all.skip(i as int) =~= Seq::<Seq<char>>::empty());
    match current {
        Some(m) => {
            let ghost m0 = sdp@.media;
            let ghost mv = m@;
            sdp.media.push(m);
            assert(sdp@.media =~= m0.push(mv));
        },
        None => {},
    }
    if sdp.version.as_str().is_empty() || sdp.media.len() == 0 {
        return None;
    }
    Some(sdp)
}

} // verus!
