//! Names for saved attachments.

use ruston_mail::downloads::{is_plain_file_name, numbered_name, safe_name, SaveError};

#[test]
fn a_sender_cannot_steer_the_write_out_of_the_folder() {
    assert_eq!(safe_name("../../etc/passwd"), "passwd");
    assert_eq!(safe_name(r"..\..\windows\system32"), "system32");
    assert_eq!(safe_name("/etc/hosts"), "hosts");
    // A name that is nothing but dots or spaces still needs a file.
    assert_eq!(safe_name("   "), "attachment");
    assert_eq!(safe_name("..."), "attachment");
    assert_eq!(safe_name(""), "attachment");
    // An ordinary name is left exactly as the sender wrote it.
    assert_eq!(safe_name("Q3 report.pdf"), "Q3 report.pdf");

    // The sanitized name cannot escape the downloads folder.
    for name in [
        "../../etc/passwd",
        "C:report.pdf",
        r"C:\Windows\evil.exe",
        r"\\server\share\file",
        ".",
        "..",
        "/",
    ] {
        assert!(
            is_plain_file_name(&safe_name(name)),
            "{name} did not reduce to a plain file name"
        );
    }
}

#[test]
fn a_drive_qualified_name_does_not_pass_for_a_file_name() {
    // Where paths use backslashes this names drive C, not a file called `C:report`.
    // Everywhere else it is an ordinary, if odd, name.
    assert_eq!(is_plain_file_name("C:report.pdf"), std::path::MAIN_SEPARATOR == '/');
    assert!(is_plain_file_name("report.pdf"));
    assert!(!is_plain_file_name(""));
    assert!(!is_plain_file_name("."));
}

#[test]
fn later_attempts_number_the_name_before_its_extension() {
    assert_eq!(numbered_name("report.pdf", 0), "report.pdf");
    assert_eq!(numbered_name("report.pdf", 1), "report (2).pdf");
    assert_eq!(numbered_name("report.pdf", 2), "report (3).pdf");
    assert_eq!(numbered_name("notes", 1), "notes (2)");
    assert_eq!(numbered_name("archive.tar.gz", 1), "archive.tar (2).gz");
    // A leading dot starts the name, not an extension.
    assert_eq!(numbered_name(".profile", 1), ".profile (2)");
}

#[test]
fn save_errors_say_what_went_wrong() {
    assert_eq!(
        SaveError::NoFolder.message(),
        "Ruston Mail could not find a downloads folder to save into."
    );
    assert_eq!(SaveError::Failed.message(), "Ruston Mail could not save the file.");
    assert_eq!(
        SaveError::NotFetched.message(),
        "Ruston Mail could not download the file from Proton."
    );
}
