//! Scanning of build-description files for targets that an annotation
//! comment marks as phony: named actions rather than files to build.

pub mod makefile;
