[package]
name = "cucumber"
version = "0.21.1"
edition = "2021"
publish = false

[dependencies]
regex = "1"
humantime = "2"
itertools = "*"
gherkin = "*"
textwrap = "*"
termcolor = "1"
pathdiff = "*"
globwalk = "*"
clap = { version = "4", features = ["derive"] }
