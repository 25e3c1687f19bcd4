//! Tests of the read-response parser: the xmcd `KEY=VALUE` layout, the year
//! fallback rules, track numbering and artist inheritance.

use gnudb::error::GnuDbError;
use gnudb::parse_read_response;

const RAMMSTEIN: &str = r"# xmcd
#
# Track frame offsets:
#    150
#    25075
#    46501
#    70596
#    88533
#    105910
#    125169
#    147365
#    162906
#    190441
#    215174
#
# Disc length: 3186 seconds
#
# Revision: 2
# Processed by: cddbd v1.5.1PL2 Copyright (c) Steve Scherf et al.
# Submitted via: audiograbber 1.83.01
#
DISCID=940c700b
DTITLE=Rammstein+Sixtynine / (black) Mutter
DYEAR=2002
DGENRE=Industrial Metal
TTITLE0=Mein Herz Brennt (Nun Liebe Kinder Mix)
TTITLE1=Links 234 (Zwei Drei Vier Mix)
TTITLE2=Sonne (Laut Bis Zehn Mix)
TTITLE3=Ich Will (Ich Will Mix)
TTITLE4=Feuer Frei (Bang Bang Mein Ungluck Mix)
TTITLE5=Mutter (Violin Mix)
TTITLE6=Spieluhr (Ein Kleiner Mensch  Mix)
TTITLE7=Zwitter (Zwitter Zwitter Mix)
TTITLE8=Rein Raus (Raus Motherfucker Rein Mix)
TTITLE9=Adios (Er Hat Die Augen Aufgemacht Mix)
TTITLE10=Nebel (Eng Umschlungen Mix)
EXTD=
EXTT0=
EXTT1=
EXTT2=
EXTT3=
EXTT4=
EXTT5=
EXTT6=
EXTT7=
EXTT8=
EXTT9=
EXTT10=
PLAYORDER=";

const DIRE_STRAITS: &str = r"# xmcd
#
# Track frame offsets:
#    150
#    18051
#    42248
#    57183
#    75952
#    89333
#    114384
#    142453
#    163641
#
# Disc length: 2476 seconds
#
# Revision: 7
# Processed by: cddbd v1.4PL0 Copyright (c) Steve Scherf et al.
# Submitted via: EasyCDDAExtractor 5.1.0
#
DISCID=6909aa09
DTITLE=DIRE STRAITS / Dire Straits
DYEAR=1978
DGENRE=Rock
TTITLE0=Down to the waterline
TTITLE1=Water of love
TTITLE2=Setting me up
TTITLE3=Six blade knife
TTITLE4=Southbound again
TTITLE5=Sultans of swing
TTITLE6=In the gallery
TTITLE7=Wild west end
TTITLE8=Lions
EXTD= YEAR: 1978 ID3G: 17
EXTT0=
EXTT1=
EXTT2=
EXTT3=
EXTT4=
EXTT5=
EXTT6=
EXTT7=
EXTT8=
PLAYORDER=";

#[test]
fn parser_test_parse() -> Result<(), GnuDbError> {
    let disc = parse_read_response(RAMMSTEIN)?;
    assert_eq!(disc.year.unwrap(), 2002);
    assert_eq!(disc.title, "(black) Mutter");
    assert_eq!(disc.tracks.len(), 11);
    assert_eq!(disc.genre.unwrap(), "Industrial Metal");
    Ok(())
}

#[test]
fn parser_test_extd() -> Result<(), GnuDbError> {
    let disc = parse_read_response(DIRE_STRAITS)?;
    assert_eq!(disc.year.unwrap(), 1978);
    assert_eq!(disc.genre.unwrap(), "Rock");
    assert_eq!(disc.tracks.len(), 9);
    assert_eq!(disc.title, "Dire Straits");
    assert_eq!(disc.artist, "DIRE STRAITS");
    Ok(())
}

#[test]
fn parser_test_missing_dyear() -> Result<(), GnuDbError> {
    let data = "DTITLE=Unknown Artist / Mystery Record\nDYEAR=\nDGENRE=Unknown\nTTITLE0=Track 01\n";
    let disc = parse_read_response(data)?;
    assert!(disc.year.is_none());
    assert_eq!(disc.title, "Mystery Record");
    assert_eq!(disc.artist, "Unknown Artist");
    Ok(())
}

#[test]
fn parser_test_invalid_dyear_uses_extd() -> Result<(), GnuDbError> {
    let data = "DTITLE=Sample Artist / Sample Title\nDYEAR=abcd\nDGENRE=Alt\nTTITLE0=Track 01\nEXTD= YEAR: 1999\n";
    let disc = parse_read_response(data)?;
    assert_eq!(disc.year, Some(1999));
    assert_eq!(disc.genre.as_deref(), Some("Alt"));
    Ok(())
}

#[test]
fn parser_test_valid_dyear_overrides_extd() -> Result<(), GnuDbError> {
    let data = "DTITLE=Artist / Title\nDYEAR=2001\nDGENRE=Rock\nTTITLE0=Song\nEXTD= YEAR: 1980\n";
    let disc = parse_read_response(data)?;
    assert_eq!(disc.year, Some(2001));
    Ok(())
}

#[test]
fn parser_test_tracks_inherit_artist_and_numbering() -> Result<(), GnuDbError> {
    let data = "DTITLE=Sample Artist / Example Album\nDYEAR=\nTTITLE0=Track Zero\nTTITLE1=Track One\nEXTD= YEAR: 1995\n";
    let disc = parse_read_response(data)?;
    assert_eq!(disc.artist, "Sample Artist");
    assert_eq!(disc.title, "Example Album");
    assert_eq!(disc.genre, None);
    assert_eq!(disc.year, Some(1995));
    assert_eq!(disc.tracks.len(), 2);
    assert_eq!(disc.tracks[0].number, 1);
    assert_eq!(disc.tracks[0].title, "Track Zero");
    assert_eq!(disc.tracks[0].artist, "Sample Artist");
    assert_eq!(disc.tracks[1].number, 2);
    assert_eq!(disc.tracks[1].title, "Track One");
    assert_eq!(disc.tracks[1].artist, "Sample Artist");
    Ok(())
}

#[test]
fn test_dtitle_without_artist() -> Result<(), GnuDbError> {
    let data = "DTITLE=Just A Title\nDYEAR=2000\nTTITLE0=Track\n";
    let disc = parse_read_response(data)?;
    assert_eq!(disc.title, "Just A Title");
    assert_eq!(disc.artist, "");
    Ok(())
}

#[test]
fn test_empty_genre() -> Result<(), GnuDbError> {
    let data = "DTITLE=Artist / Album\nDYEAR=2000\nDGENRE=\nTTITLE0=Track\n";
    let disc = parse_read_response(data)?;
    assert!(disc.genre.is_none());
    Ok(())
}

#[test]
fn test_whitespace_only_genre() -> Result<(), GnuDbError> {
    let data = "DTITLE=Artist / Album\nDYEAR=2000\nDGENRE=   \nTTITLE0=Track\n";
    let disc = parse_read_response(data)?;
    assert!(disc.genre.is_none());
    Ok(())
}

#[test]
fn test_disc_with_no_tracks() -> Result<(), GnuDbError> {
    let data = "DTITLE=Artist / Album\nDYEAR=2000\nDGENRE=Rock\n";
    let disc = parse_read_response(data)?;
    assert_eq!(disc.tracks.len(), 0);
    assert_eq!(disc.title, "Album");
    Ok(())
}

#[test]
fn test_track_with_special_characters() -> Result<(), GnuDbError> {
    let data = "DTITLE=Artist / Album\nTTITLE0=Track with / slash\nTTITLE1=Track (with) [brackets] & symbols!\n";
    let disc = parse_read_response(data)?;
    assert_eq!(disc.tracks.len(), 2);
    assert_eq!(disc.tracks[0].title, "Track with / slash");
    assert_eq!(disc.tracks[1].title, "Track (with) [brackets] & symbols!");
    Ok(())
}

#[test]
fn test_year_overflow() -> Result<(), GnuDbError> {
    // Year too large for u16
    let data = "DTITLE=Artist / Album\nDYEAR=99999\nTTITLE0=Track\n";
    let disc = parse_read_response(data)?;
    // Should fail to parse and fall through without setting year
    assert!(disc.year.is_none());
    Ok(())
}

#[test]
fn test_extd_year_not_used_when_dyear_valid() -> Result<(), GnuDbError> {
    let data = "DTITLE=Artist / Album\nDYEAR=2020\nTTITLE0=Track\nEXTD= YEAR: 1999\n";
    let disc = parse_read_response(data)?;
    assert_eq!(disc.year, Some(2020));
    Ok(())
}

#[test]
fn lib_test_parse() -> Result<(), GnuDbError> {
    let disc = parse_read_response(RAMMSTEIN)?;
    assert_eq!(disc.year.unwrap(), 2002);
    assert_eq!(disc.title, "(black) Mutter");
    assert_eq!(disc.tracks.len(), 11);
    assert_eq!(disc.genre.unwrap(), "Industrial Metal");
    assert_eq!(disc.year, Some(2002));
    Ok(())
}

#[test]
fn lib_test_extd() -> Result<(), GnuDbError> {
    let disc = parse_read_response(DIRE_STRAITS)?;
    assert_eq!(disc.year.unwrap(), 1978);
    assert_eq!(disc.genre.unwrap(), "Rock");
    assert_eq!(disc.tracks.len(), 9);
    assert_eq!(disc.title, "Dire Straits");
    assert_eq!(disc.artist, "DIRE STRAITS");
    assert_eq!(disc.year, Some(1978));
    Ok(())
}

#[test]
fn lib_test_missing_dyear() -> Result<(), GnuDbError> {
    let data = "# xmcd\n#\nDTITLE=Unknown Artist / Mystery Record\nDYEAR=\nDGENRE=Unknown\nTTITLE0=Track 01\n";
    let disc = parse_read_response(data)?;
    assert!(disc.year.is_none());
    assert_eq!(disc.title, "Mystery Record");
    assert_eq!(disc.artist, "Unknown Artist");
    Ok(())
}

#[test]
fn lib_test_invalid_dyear_uses_extd() -> Result<(), GnuDbError> {
    let data = "# xmcd\n#\nDTITLE=Sample Artist / Sample Title\nDYEAR=abcd\nDGENRE=Alt\nTTITLE0=Track 01\nEXTD= YEAR: 1999\n";
    let disc = parse_read_response(data)?;
    assert_eq!(disc.year, Some(1999));
    assert_eq!(disc.genre.as_deref(), Some("Alt"));
    Ok(())
}

#[test]
fn lib_test_valid_dyear_overrides_extd() -> Result<(), GnuDbError> {
    let data = "# xmcd\n#\nDTITLE=Artist / Title\nDYEAR=2001\nDGENRE=Rock\nTTITLE0=Song\nEXTD= YEAR: 1980\n";
    let disc = parse_read_response(data)?;
    assert_eq!(disc.year, Some(2001));
    Ok(())
}

#[test]
fn lib_test_tracks_inherit_artist_and_numbering() -> Result<(), GnuDbError> {
    let data = "# xmcd\n#\nDTITLE=Sample Artist / Example Album\nDYEAR=\nTTITLE0=Track Zero\nTTITLE1=Track One\nEXTD= YEAR: 1995\n";
    let disc = parse_read_response(data)?;
    assert_eq!(disc.artist, "Sample Artist");
    assert_eq!(disc.title, "Example Album");
    assert_eq!(disc.genre, None);
    assert_eq!(disc.year, Some(1995));
    assert_eq!(disc.tracks.len(), 2);
    assert_eq!(disc.tracks[0].number, 1);
    assert_eq!(disc.tracks[0].title, "Track Zero");
    assert_eq!(disc.tracks[0].artist, "Sample Artist");
    assert_eq!(disc.tracks[1].number, 2);
    assert_eq!(disc.tracks[1].title, "Track One");
    assert_eq!(disc.tracks[1].artist, "Sample Artist");
    Ok(())
}

#[test]
fn test_parse_read_idempotent() -> Result<(), GnuDbError> {
    // Parsing the same payload twice yields structurally equal records
    let once = parse_read_response(DIRE_STRAITS)?;
    let twice = parse_read_response(DIRE_STRAITS)?;
    assert_eq!(once, twice);
    Ok(())
}

#[test]
fn test_malformed_ttitle_index_fails() {
    let err = parse_read_response("TTITLE0x=Track\n").unwrap_err();
    match err {
        GnuDbError::ProtocolError(msg) => assert_eq!(msg, "failed to parse TTITLE index"),
        GnuDbError::ConnectionError(_) => panic!("unexpected error type"),
    }
}

#[test]
fn test_ttitle_without_equals_fails() {
    let err = parse_read_response("TTITLE\n").unwrap_err();
    match err {
        GnuDbError::ProtocolError(msg) => assert_eq!(msg, "failed to parse TTITLE value"),
        GnuDbError::ConnectionError(_) => panic!("unexpected error type"),
    }
}

#[test]
fn test_malformed_extd_year_fails() {
    let err = parse_read_response("EXTD= YEAR: not-a-year\n").unwrap_err();
    match err {
        GnuDbError::ProtocolError(msg) => assert_eq!(msg, "failed to parse EXTD YEAR"),
        GnuDbError::ConnectionError(_) => panic!("unexpected error type"),
    }
}

#[test]
fn test_extd_without_year_token_fails() {
    let err = parse_read_response("EXTD=YEAR:   \n").unwrap_err();
    match err {
        GnuDbError::ProtocolError(msg) => assert_eq!(msg, "failed to parse EXTD YEAR"),
        GnuDbError::ConnectionError(_) => panic!("unexpected error type"),
    }
}

#[test]
fn test_dyear_with_plus_sign() -> Result<(), GnuDbError> {
    // str::parse accepts one leading '+' for unsigned integers
    let disc = parse_read_response("DYEAR=+2001\n")?;
    assert_eq!(disc.year, Some(2001));
    Ok(())
}

#[test]
fn test_genre_is_trimmed() -> Result<(), GnuDbError> {
    let disc = parse_read_response("DGENRE=  Rock  \n")?;
    assert_eq!(disc.genre.as_deref(), Some("Rock"));
    Ok(())
}

#[test]
fn test_dtitle_after_ttitle_does_not_rename_earlier_tracks() -> Result<(), GnuDbError> {
    let data = "TTITLE0=Early\nDTITLE=Late Artist / Late Album\nTTITLE1=Later\n";
    let disc = parse_read_response(data)?;
    assert_eq!(disc.tracks[0].artist, "");
    assert_eq!(disc.tracks[1].artist, "Late Artist");
    Ok(())
}
